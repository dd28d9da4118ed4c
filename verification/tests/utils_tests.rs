use netweaver::clock::{micros_to_timestamp, timestamp_of};
use netweaver::error::{ErrorCode, ErrorContext, NetweaverError};
use netweaver::utils::ip::{
    ip_int_to_str, ip_str_to_int, ipv4_to_u32, is_loopback, is_multicast, is_private, u32_to_ipv4,
    Ipv4Address,
};
use netweaver::utils::network::{
    calculate_adaptive_timeout, is_port_in_range, parse_port_list, COMMON_PORTS,
};
use netweaver::utils::{cidr_to_range, get_timestamp_us, parse_cidr, CidrError, MacAddress};

#[test]
fn test_error_display() {
    let err = NetweaverError::HostUnreachable {
        ip: Ipv4Address::parse("192.168.1.1").unwrap(),
        attempts: 3,
    };
    let msg = err.to_string();
    assert!(msg.contains("192.168.1.1"));
    assert!(msg.contains("3 attempts"));
    assert_eq!(msg, "Host 192.168.1.1 is unreachable after 3 attempts");
}

#[test]
fn test_error_context() {
    let result: std::result::Result<(), &str> = Err("connection refused");
    let enriched = result.with_host_context("example.com", 80);
    assert!(enriched.is_err());

    let err_msg = enriched.unwrap_err().to_string();
    assert!(err_msg.contains("example.com"));
    assert!(err_msg.contains("80"));
    assert_eq!(err_msg, "Failed to connect to example.com:80 - connection refused");
}

#[test]
fn error_contexts_pass_success_through() {
    let ok: Result<u8, &str> = Ok(7);
    assert_eq!(ok.with_host_context("h", 1).unwrap(), 7);
    let ok: Result<u8, &str> = Ok(8);
    assert_eq!(ok.with_ip_context(Ipv4Address::new(1, 2, 3, 4)).unwrap(), 8);
    let ok: Result<u8, &str> = Ok(9);
    assert_eq!(ok.with_operation_context("bind").unwrap(), 9);
    let failed: Result<u8, &str> = Err("refused");
    assert_eq!(
        failed.with_ip_context(Ipv4Address::new(10, 0, 0, 1)).unwrap_err().to_string(),
        "Port scan failed for 10.0.0.1 - refused"
    );
    let failed: Result<u8, String> = Err(String::from("no route"));
    assert_eq!(
        failed.with_operation_context("sendto").unwrap_err().to_string(),
        "Socket operation failed: sendto - no route"
    );
}

#[test]
fn every_error_has_its_message() {
    let text = |s: &str| s.to_string();
    let cases: Vec<(NetweaverError, &str)> = vec![
        (
            NetweaverError::DnsResolutionFailed { hostname: text("a.b"), reason: text("nx") },
            "Failed to resolve hostname 'a.b' - nx",
        ),
        (
            NetweaverError::PacketCraftFailed { packet_type: text("UDP"), reason: text("big") },
            "Failed to craft UDP packet - big",
        ),
        (
            NetweaverError::PacketParseFailed { details: text("short") },
            "Failed to parse packet: short",
        ),
        (
            NetweaverError::PermissionDenied { operation: text("raw socket") },
            "Insufficient privileges for raw socket. Try running with sudo.",
        ),
        (
            NetweaverError::ConfigError { field: text("mtu"), reason: text("zero") },
            "Invalid configuration: mtu - zero",
        ),
        (
            NetweaverError::Timeout { operation: text("recv"), duration_ms: 1500 },
            "Operation timed out after 1500ms: recv",
        ),
        (
            NetweaverError::ResourceExhausted { resource: text("pool"), details: text("empty") },
            "Resource limit exceeded: pool - empty",
        ),
        (
            NetweaverError::InvalidParameter { param: text("ip"), reason: text("malformed") },
            "Invalid parameter: ip - malformed",
        ),
        (
            NetweaverError::FileError { path: text("/x"), reason: text("denied") },
            "File operation failed: /x - denied",
        ),
        (
            NetweaverError::SerializationError {
                operation: text("write"),
                format: text("JSON"),
                details: text("eof"),
            },
            "Failed to write JSON data - eof",
        ),
        (
            NetweaverError::HostUnreachable { ip: Ipv4Address { bits: 0 }, attempts: u32::MAX },
            "Host 0.0.0.0 is unreachable after 4294967295 attempts",
        ),
        (
            NetweaverError::Timeout { operation: text(""), duration_ms: u64::MAX },
            "Operation timed out after 18446744073709551615ms: ",
        ),
    ];
    for (error, expected) in cases {
        assert_eq!(error.to_string(), expected);
    }
}

#[test]
fn test_ip_string_conversion() {
    let test_ip = "192.168.1.100";
    let expected: u32 = (192 << 24) | (168 << 16) | (1 << 8) | 100;

    let ip_int = ip_str_to_int(test_ip).unwrap();
    assert_eq!(ip_int, expected);

    // Convert back
    let result_str = ip_int_to_str(ip_int);
    assert_eq!(result_str, test_ip);
}

#[test]
fn ip_text_round_trips() {
    for text in ["0.0.0.0", "255.255.255.255", "8.8.8.8", "10.0.200.1", "1.20.210.9", "127.0.0.1"] {
        assert_eq!(ip_int_to_str(ip_str_to_int(text).unwrap()), text);
    }
    for bits in [0u32, 1, 255, 256, 0x0102_0304, 0xc0a8_0164, 0xffff_ffff, 0x7f00_0001, 0x0a64_c800] {
        assert_eq!(ip_str_to_int(&ip_int_to_str(bits)), Ok(bits));
    }
    assert_eq!(ip_int_to_str(0x0102_0304), "1.2.3.4");
    assert_eq!(ip_str_to_int("1.2.3.4"), Ok(0x0102_0304));
}

#[test]
fn malformed_ip_text_is_refused() {
    for text in [
        "", ".", "1.2.3", "1.2.3.4.5", "1.2.3.", ".1.2.3", "1..2.3", "256.1.1.1", "1.2.3.256",
        "01.2.3.4", "1.2.3.04", "1.2.3.4 ", " 1.2.3.4", "a.b.c.d", "1.2.3.-4", "+1.2.3.4",
        "1.2.3.4\n", "1,2,3,4", "1.2.3.1000", "0x1.2.3.4", "00.0.0.0",
    ] {
        assert_eq!(ip_str_to_int(text), Err(ErrorCode::InvalidParameter), "{:?}", text);
        assert_eq!(Ipv4Address::parse(text), None);
    }
}

#[test]
fn addresses_and_their_blocks() {
    let ip = Ipv4Address::new(192, 168, 1, 100);
    assert_eq!(ipv4_to_u32(ip), 0xc0a8_0164);
    assert_eq!(u32_to_ipv4(0xc0a8_0164), ip);
    assert_eq!(ip.octets(), [192, 168, 1, 100]);
    assert_eq!(ip.to_string(), "192.168.1.100");
    assert!(is_private(ip));
    assert!(is_private(Ipv4Address::new(10, 1, 2, 3)));
    assert!(is_private(Ipv4Address::new(172, 200, 2, 3)));
    assert!(!is_private(Ipv4Address::new(8, 8, 8, 8)));
    assert!(is_loopback(Ipv4Address::new(127, 0, 0, 1)));
    assert!(is_loopback(Ipv4Address::new(127, 255, 255, 254)));
    assert!(!is_loopback(Ipv4Address::new(128, 0, 0, 1)));
    assert!(is_multicast(Ipv4Address::new(224, 0, 0, 1)));
    assert!(is_multicast(Ipv4Address::new(239, 255, 255, 255)));
    assert!(!is_multicast(Ipv4Address::new(223, 255, 255, 255)));
    assert!(!is_multicast(Ipv4Address::new(240, 0, 0, 0)));
}

#[test]
fn test_cidr_parsing() {
    let result = parse_cidr("192.168.1.0/24");
    assert!(result.is_ok());

    let (ip, prefix) = result.unwrap();
    assert_eq!(ip, Ipv4Address::parse("192.168.1.0").unwrap());
    assert_eq!(prefix, 24);
}

#[test]
fn cidr_errors_come_in_order() {
    assert_eq!(parse_cidr("192.168.1.0"), Err(CidrError::InvalidFormat));
    assert_eq!(parse_cidr("1.2.3.4/24/1"), Err(CidrError::InvalidFormat));
    assert_eq!(parse_cidr(""), Err(CidrError::InvalidFormat));
    assert_eq!(parse_cidr("1.2.3/24"), Err(CidrError::InvalidAddress));
    assert_eq!(parse_cidr("1.2.3.256/99"), Err(CidrError::InvalidAddress));
    assert_eq!(parse_cidr("1.2.3.4/"), Err(CidrError::InvalidPrefix));
    assert_eq!(parse_cidr("1.2.3.4/x"), Err(CidrError::InvalidPrefix));
    assert_eq!(parse_cidr("1.2.3.4/256"), Err(CidrError::InvalidPrefix));
    assert_eq!(parse_cidr("1.2.3.4/-1"), Err(CidrError::InvalidPrefix));
    assert_eq!(parse_cidr("1.2.3.4/33"), Err(CidrError::PrefixTooLong));
    assert_eq!(parse_cidr("1.2.3.4/255"), Err(CidrError::PrefixTooLong));
    assert_eq!(parse_cidr("1.2.3.4/32"), Ok((Ipv4Address::new(1, 2, 3, 4), 32)));
    assert_eq!(parse_cidr("0.0.0.0/0"), Ok((Ipv4Address::new(0, 0, 0, 0), 0)));
    assert_eq!(parse_cidr("10.0.0.0/+8"), Ok((Ipv4Address::new(10, 0, 0, 0), 8)));
    assert_eq!(parse_cidr("10.0.0.0/008"), Ok((Ipv4Address::new(10, 0, 0, 0), 8)));
    assert_eq!(CidrError::InvalidFormat.message(), "Invalid CIDR format");
    assert_eq!(CidrError::InvalidAddress.message(), "Invalid IP address");
    assert_eq!(CidrError::InvalidPrefix.message(), "Invalid prefix length");
    assert_eq!(CidrError::PrefixTooLong.message(), "Prefix length must be <= 32");
}

#[test]
fn test_cidr_to_range() {
    let ip = Ipv4Address::parse("192.168.1.0").unwrap();
    let range = cidr_to_range(ip, 30);

    // /30 gives us 4 IPs total, but we exclude network and broadcast
    // So we should get 2 usable IPs
    assert_eq!(range.len(), 2);
    assert_eq!(range[0], Ipv4Address::parse("192.168.1.1").unwrap());
    assert_eq!(range[1], Ipv4Address::parse("192.168.1.2").unwrap());
}

#[test]
fn cidr_ranges_leave_out_network_and_broadcast() {
    let range = cidr_to_range(Ipv4Address::new(10, 1, 2, 77), 24);
    assert_eq!(range.len(), 254);
    assert_eq!(range[0], Ipv4Address::new(10, 1, 2, 1));
    assert_eq!(range[253], Ipv4Address::new(10, 1, 2, 254));
    assert_eq!(cidr_to_range(Ipv4Address::new(10, 1, 2, 77), 32).len(), 0);
    assert_eq!(cidr_to_range(Ipv4Address::new(10, 1, 2, 77), 31).len(), 0);
    let range = cidr_to_range(Ipv4Address::new(255, 255, 255, 255), 29);
    assert_eq!(range.len(), 6);
    assert_eq!(range[0], Ipv4Address::new(255, 255, 255, 249));
    assert_eq!(range[5], Ipv4Address::new(255, 255, 255, 254));
    let range = cidr_to_range(Ipv4Address::new(172, 16, 200, 9), 16);
    assert_eq!(range.len(), 65534);
    assert_eq!(range[0], Ipv4Address::new(172, 16, 0, 1));
    assert_eq!(range[65533], Ipv4Address::new(172, 16, 255, 254));
}

#[test]
fn test_mac_address() {
    let mac = MacAddress::new([0x00, 0x50, 0x56, 0xc0, 0x00, 0x08]);
    assert_eq!(mac.to_string(), "00:50:56:c0:00:08");
    assert_eq!(mac.vendor(), "VMware");

    let mac2 = MacAddress::new([0xf0, 0x18, 0x98, 0x12, 0x34, 0x56]);
    assert_eq!(mac2.vendor(), "Apple");
}

#[test]
fn mac_vendors_and_text() {
    let vendor = |a: u8, b: u8, c: u8| MacAddress::new([a, b, c, 1, 2, 3]).vendor();
    assert_eq!(vendor(0x00, 0x0c, 0x29), "VMware");
    assert_eq!(vendor(0x08, 0x00, 0x27), "VirtualBox");
    assert_eq!(vendor(0x52, 0x54, 0x00), "QEMU/KVM");
    assert_eq!(vendor(0x00, 0x1c, 0x42), "Parallels");
    assert_eq!(vendor(0xdc, 0xa6, 0x32), "Raspberry Pi");
    assert_eq!(vendor(0xb8, 0x27, 0xeb), "Raspberry Pi");
    assert_eq!(vendor(0x00, 0x1b, 0x63), "Apple");
    assert_eq!(vendor(0x00, 0x50, 0x57), "Unknown");
    assert_eq!(vendor(0xff, 0xff, 0xff), "Unknown");
    assert_eq!(MacAddress::new([0xff, 0xab, 0x09, 0x10, 0x0f, 0xa0]).to_string(), "ff:ab:09:10:0f:a0");
    assert_eq!(MacAddress::new([0; 6]).to_string(), "00:00:00:00:00:00");
    assert_eq!(MacAddress::new([1, 2, 3, 4, 5, 6]).0, [1, 2, 3, 4, 5, 6]);
}

#[test]
fn test_port_list_parsing() {
    let ports = parse_port_list("80,443,8080-8083");
    assert_eq!(ports.len(), 6);
    assert!(ports.contains(&80));
    assert!(ports.contains(&443));
    assert!(ports.contains(&8080));
    assert!(ports.contains(&8081));
    assert!(ports.contains(&8082));
    assert!(ports.contains(&8083));
}

#[test]
fn port_lists_in_order_and_with_noise() {
    assert_eq!(parse_port_list("80,443,8080-8083"), vec![80, 443, 8080, 8081, 8082, 8083]);
    assert_eq!(parse_port_list(" 22 ,\t80\n"), vec![22, 80]);
    assert_eq!(parse_port_list(""), Vec::<u16>::new());
    assert_eq!(parse_port_list(",,"), Vec::<u16>::new());
    assert_eq!(parse_port_list("80,x,443"), vec![80, 443]);
    assert_eq!(parse_port_list("65535,65536,0"), vec![65535, 0]);
    assert_eq!(parse_port_list("+80,0080"), vec![80, 80]);
    assert_eq!(parse_port_list("90-80,5-5"), vec![5]);
    assert_eq!(parse_port_list("1-2-3,7"), vec![7]);
    assert_eq!(parse_port_list("80 - 90,7"), vec![7]);
    assert_eq!(parse_port_list("-80,80-,9"), vec![9]);
    assert_eq!(parse_port_list("65534-65535"), vec![65534, 65535]);
    assert_eq!(parse_port_list("0-65535").len(), 65536);
    assert_eq!(parse_port_list("\u{a0}443\u{3000}"), vec![443]);
}

#[test]
fn test_port_in_range() {
    assert!(is_port_in_range(8080, "8080-8090"));
    assert!(is_port_in_range(8085, "8080-8090"));
    assert!(!is_port_in_range(9000, "8080-8090"));

    assert!(is_port_in_range(80, "80"));
    assert!(!is_port_in_range(443, "80"));
}

#[test]
fn port_ranges_at_their_edges() {
    assert!(is_port_in_range(8090, "8080-8090"));
    assert!(!is_port_in_range(8079, "8080-8090"));
    assert!(!is_port_in_range(8091, "8080-8090"));
    assert!(!is_port_in_range(80, ""));
    assert!(!is_port_in_range(80, " 80"));
    assert!(!is_port_in_range(80, "80-"));
    assert!(!is_port_in_range(80, "-"));
    assert!(!is_port_in_range(80, "70-90-100"));
    assert!(!is_port_in_range(80, "90-70"));
    assert!(!is_port_in_range(80, "70-65536"));
    assert!(is_port_in_range(80, "+80"));
    assert!(is_port_in_range(80, "080"));
    assert!(is_port_in_range(0, "0-0"));
    assert!(is_port_in_range(65535, "0-65535"));
}

#[test]
fn test_common_ports() {
    assert!(COMMON_PORTS.contains(&80));
    assert!(COMMON_PORTS.contains(&443));
    assert!(COMMON_PORTS.contains(&22));
    assert!(COMMON_PORTS.contains(&3306));
}

#[test]
fn adaptive_timeout_follows_the_round_trip() {
    assert_eq!(calculate_adaptive_timeout(0), 100_000);
    assert_eq!(calculate_adaptive_timeout(40_000), 100_000);
    assert_eq!(calculate_adaptive_timeout(40_001), 100_002);
    assert_eq!(calculate_adaptive_timeout(1_000_000), 2_500_000);
    assert_eq!(calculate_adaptive_timeout(3), 100_000);
    assert_eq!(calculate_adaptive_timeout(200_001), 500_002);
    assert_eq!(calculate_adaptive_timeout(u64::MAX), u64::MAX);
    assert_eq!(calculate_adaptive_timeout(u64::MAX / 5 * 2), u64::MAX / 5 * 2 / 2 * 5);
}

#[test]
fn timestamp_is_after_2020() {
    let now = get_timestamp_us();
    assert!(now > 1_577_836_800_000_000);
}

#[test]
fn timestamps_of_readings() {
    assert_eq!(timestamp_of(None), 0);
    assert_eq!(timestamp_of(Some(0)), 0);
    assert_eq!(timestamp_of(Some(1_700_000_000_000_000)), 1_700_000_000_000_000);
    assert_eq!(timestamp_of(Some(u64::MAX as u128)), u64::MAX);
    assert_eq!(timestamp_of(Some(u64::MAX as u128 + 6)), 5);
    assert_eq!(timestamp_of(Some(u128::MAX)), u64::MAX);
    assert_eq!(micros_to_timestamp(1u128 << 64), 0);
    assert_eq!(micros_to_timestamp(77), 77);
}
