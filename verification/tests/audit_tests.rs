use netweaver::monitor::ExportFormat;
use netweaver::optimizer::{
    apply_mtu_config, apply_optimizations, apply_tcp_config, generate_recommendations,
    get_current_mtu, mtu_needs_change, NetworkMetrics,
};
use netweaver::scanner::{contains_port, guess_os, port_service};
use netweaver::security::{
    arp_findings, count_shared_macs, get_service_name, is_risky_port, mitm_findings,
    port_findings, risky_ports, vpn_findings, ArpEntry, Findings, AUDITED_PORTS,
};
use netweaver::utils::ip::Ipv4Address;
use netweaver::utils::MacAddress;

#[test]
fn risky_ports_are_the_eight() {
    let risky: Vec<u16> = (0..=u16::MAX).filter(|p| is_risky_port(*p)).collect();
    assert_eq!(risky, vec![21, 23, 135, 139, 445, 1433, 3389, 5900]);
    assert_eq!(risky_ports(&AUDITED_PORTS), vec![21, 23, 135, 139, 445, 1433, 3389, 5900]);
    assert_eq!(risky_ports(&[80, 5900, 22, 21, 21]), vec![5900, 21, 21]);
    assert_eq!(risky_ports(&[]), Vec::<u16>::new());
    assert_eq!(port_findings(&[80, 5900, 22, 21]), Findings { vulnerabilities: 0, warnings: 2 });
    assert_eq!(port_findings(&[80, 443]), Findings::none());
}

#[test]
fn services_have_their_names() {
    let names = [
        (21, "FTP"), (22, "SSH"), (23, "Telnet"), (25, "SMTP"), (53, "DNS"), (80, "HTTP"),
        (110, "POP3"), (135, "MSRPC"), (139, "NetBIOS"), (143, "IMAP"), (443, "HTTPS"),
        (445, "SMB"), (1433, "MSSQL"), (3306, "MySQL"), (3389, "RDP"), (5432, "PostgreSQL"),
        (5900, "VNC"), (8080, "HTTP-Alt"), (8443, "HTTPS-Alt"), (0, "Unknown"), (81, "Unknown"),
        (65535, "Unknown"),
    ];
    for (port, name) in names {
        assert_eq!(get_service_name(port), name);
    }
    assert_eq!(port_service(443), "HTTPS");
    assert_eq!(port_service(8443), "HTTPS-Alt");
    assert_eq!(port_service(135), "");
    assert_eq!(port_service(1433), "");
    assert_eq!(port_service(1), "");
    for port in [21u16, 22, 23, 25, 53, 80, 110, 143, 443, 445, 3306, 3389, 5432, 5900, 8080] {
        assert_eq!(port_service(port), get_service_name(port));
    }
}

#[test]
fn audit_verdicts() {
    assert_eq!(vpn_findings(true, true), Findings { vulnerabilities: 1, warnings: 0 });
    assert_eq!(vpn_findings(true, false), Findings { vulnerabilities: 1, warnings: 0 });
    assert_eq!(vpn_findings(false, true), Findings { vulnerabilities: 0, warnings: 1 });
    assert_eq!(vpn_findings(false, false), Findings::none());
    assert_eq!(mitm_findings(true), Findings::none());
    assert_eq!(mitm_findings(false), Findings { vulnerabilities: 1, warnings: 0 });
    let a = Findings { vulnerabilities: 1, warnings: 2 };
    let b = Findings { vulnerabilities: 10, warnings: 20 };
    assert_eq!(a.merge(&b), Some(Findings { vulnerabilities: 11, warnings: 22 }));
    assert_eq!(a.merge(&Findings { vulnerabilities: usize::MAX, warnings: 0 }), None);
    assert_eq!(a.merge(&Findings { vulnerabilities: 0, warnings: usize::MAX - 1 }), None);
    assert_eq!(
        a.merge(&Findings { vulnerabilities: usize::MAX - 1, warnings: usize::MAX - 2 }),
        Some(Findings { vulnerabilities: usize::MAX, warnings: usize::MAX })
    );
}

#[test]
fn shared_hardware_addresses_are_counted_once() {
    let entry = |d: u8, m: u8| ArpEntry {
        ip: Ipv4Address::new(192, 168, 1, d),
        mac: MacAddress::new([0, 0x50, 0x56, 0, 0, m]),
    };
    // the table of the audit as it stands: two hosts, two addresses
    let clean = [
        ArpEntry {
            ip: Ipv4Address::new(192, 168, 1, 1),
            mac: MacAddress::new([0x00, 0x50, 0x56, 0xc0, 0x00, 0x08]),
        },
        ArpEntry {
            ip: Ipv4Address::new(192, 168, 1, 100),
            mac: MacAddress::new([0xf0, 0x18, 0x98, 0x12, 0x34, 0x56]),
        },
    ];
    assert_eq!(count_shared_macs(&clean), 0);
    assert_eq!(arp_findings(&clean), Findings::none());
    assert_eq!(count_shared_macs(&[]), 0);
    assert_eq!(count_shared_macs(&[entry(1, 1)]), 0);
    assert_eq!(count_shared_macs(&[entry(1, 1), entry(2, 1)]), 1);
    assert_eq!(count_shared_macs(&[entry(1, 1), entry(2, 1), entry(3, 1)]), 1);
    assert_eq!(count_shared_macs(&[entry(1, 1), entry(2, 2), entry(3, 1), entry(4, 2)]), 2);
    assert_eq!(count_shared_macs(&[entry(1, 1), entry(2, 2), entry(3, 3), entry(4, 2)]), 1);
    assert_eq!(
        arp_findings(&[entry(1, 9), entry(2, 9), entry(3, 8), entry(4, 8), entry(5, 7)]),
        Findings { vulnerabilities: 2, warnings: 0 }
    );
}

#[test]
fn operating_systems_are_guessed_from_ports() {
    let text = |s: &str| Some(s.to_string());
    assert_eq!(guess_os(&[3389], 5_000), text("Windows"));
    assert_eq!(guess_os(&[22, 80, 3389, 548], 5_000), text("Windows"));
    assert_eq!(guess_os(&[80, 22], 5_000), text("Linux"));
    assert_eq!(guess_os(&[22, 80, 5900], 5_000), text("Linux"));
    assert_eq!(guess_os(&[22, 548], 5_000), text("macOS"));
    assert_eq!(guess_os(&[5900], 5_000), text("macOS"));
    assert_eq!(guess_os(&[1, 2, 3, 4, 5, 6], 999), text("Local Router/Switch"));
    assert_eq!(guess_os(&[1, 2, 3, 4, 5, 6], 1_000), None);
    assert_eq!(guess_os(&[1, 2, 3, 4, 5], 0), None);
    assert_eq!(guess_os(&[22], 0), None);
    assert_eq!(guess_os(&[], 0), None);
    assert!(contains_port(&[1, 2, 3], 3));
    assert!(!contains_port(&[1, 2, 3], 4));
    assert!(!contains_port(&[], 0));
}

#[test]
fn advice_follows_the_measurements() {
    let quiet = NetworkMetrics {
        avg_latency_us: 15_500,
        bandwidth: 125_000_000,
        packet_loss_ppm: 1_000,
        retransmits: 42,
    };
    assert_eq!(
        generate_recommendations(&quiet),
        vec![
            "Enable TCP window scaling for better throughput",
            "Configure optimal MTU size for your network",
        ]
    );
    let edge = NetworkMetrics {
        avg_latency_us: 50_000,
        bandwidth: 0,
        packet_loss_ppm: 10_000,
        retransmits: 100,
    };
    assert_eq!(generate_recommendations(&edge).len(), 2);
    let bad = NetworkMetrics {
        avg_latency_us: 50_001,
        bandwidth: 0,
        packet_loss_ppm: 10_001,
        retransmits: 101,
    };
    assert_eq!(
        generate_recommendations(&bad),
        vec![
            "Enable TCP Fast Open to reduce connection latency",
            "Investigate physical connection - high packet loss detected",
            "Tune TCP congestion control algorithm (recommend BBR)",
            "Enable TCP window scaling for better throughput",
            "Configure optimal MTU size for your network",
        ]
    );
    let lossy = NetworkMetrics { packet_loss_ppm: 20_000, ..quiet };
    assert_eq!(
        generate_recommendations(&lossy)[0],
        "Investigate physical connection - high packet loss detected"
    );
    assert_eq!(generate_recommendations(&lossy).len(), 3);
    assert_eq!(get_current_mtu().unwrap(), 1500);
    assert!(!mtu_needs_change(1500, 1500));
    assert!(mtu_needs_change(1500, 1400));
    assert!(apply_mtu_config(1400).is_ok());
    assert!(apply_tcp_config(&[("tcp_sack", "1", "Enabled")]).is_ok());
    assert!(apply_optimizations(&generate_recommendations(&bad)).is_ok());
}

#[test]
fn export_formats_by_path_and_name() {
    assert_eq!(ExportFormat::for_path("scan.yaml"), ExportFormat::Yaml);
    assert_eq!(ExportFormat::for_path("scan.yml"), ExportFormat::Yaml);
    assert_eq!(ExportFormat::for_path(".yml"), ExportFormat::Yaml);
    assert_eq!(ExportFormat::for_path("scan.json"), ExportFormat::Json);
    assert_eq!(ExportFormat::for_path("scan.yaml.bak"), ExportFormat::Json);
    assert_eq!(ExportFormat::for_path("scan.YAML"), ExportFormat::Json);
    assert_eq!(ExportFormat::for_path("yml"), ExportFormat::Json);
    assert_eq!(ExportFormat::for_path(""), ExportFormat::Json);
    assert_eq!(ExportFormat::for_path("scan.html"), ExportFormat::Json);
    assert_eq!(ExportFormat::from_name("yaml"), ExportFormat::Yaml);
    assert_eq!(ExportFormat::from_name("yml"), ExportFormat::Yaml);
    assert_eq!(ExportFormat::from_name("html"), ExportFormat::Html);
    assert_eq!(ExportFormat::from_name("json"), ExportFormat::Json);
    assert_eq!(ExportFormat::from_name("HTML"), ExportFormat::Json);
    assert_eq!(ExportFormat::from_name(""), ExportFormat::Json);
    assert_eq!(ExportFormat::from_name("xml"), ExportFormat::Json);
}
