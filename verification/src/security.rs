//! What a security audit concludes from what it sees: which open ports are a
//! risk, which services listen on them, and whether the neighbours' hardware
//! addresses look forged.

use crate::utils::ip::Ipv4Address;
use crate::utils::MacAddress;
use vstd::prelude::*;

verus! {

/// What one check of an audit found.
#[derive(Clone, Copy, Debug, PartialEq, Eq, Structural)]
pub struct Findings {
    pub vulnerabilities: usize,
    pub warnings: usize,
}

/// Whether a port is one that should not be open to the world: FTP, Telnet,
/// MSRPC, NetBIOS, SMB, MSSQL, RDP or VNC.
pub open spec fn risky(port: u16) -> bool {
    port == 21 || port == 23 || port == 135 || port == 139 || port == 445 || port == 1433 || port
        == 3389 || port == 5900
}

/// Tells whether a port is one that should not be open to the world.
pub fn is_risky_port(port: u16) -> (b: bool)
    ensures
        b == risky(port),
{
    port == 21 || port == 23 || port == 135 || port == 139 || port == 445 || port == 1433 || port
        == 3389 || port == 5900
}

/// The service that usually listens on a port.
pub open spec fn service_name(port: u16) -> Seq<char> {
    if port == 21 {
        "FTP"@
    } else if port == 22 {
        "SSH"@
    } else if port == 23 {
        "Telnet"@
    } else if port == 25 {
        "SMTP"@
    } else if port == 53 {
        "DNS"@
    } else if port == 80 {
        "HTTP"@
    } else if port == 110 {
        "POP3"@
    } else if port == 135 {
        "MSRPC"@
    } else if port == 139 {
        "NetBIOS"@
    } else if port == 143 {
        "IMAP"@
    } else if port == 443 {
        "HTTPS"@
    } else if port == 445 {
        "SMB"@
    } else if port == 1433 {
        "MSSQL"@
    } else if port == 3306 {
        "MySQL"@
    } else if port == 3389 {
        "RDP"@
    } else if port == 5432 {
        "PostgreSQL"@
    } else if port == 5900 {
        "VNC"@
    } else if port == 8080 {
        "HTTP-Alt"@
    } else if port == 8443 {
        "HTTPS-Alt"@
    } else {
        "Unknown"@
    }
}

/// The service that usually listens on a port, `Unknown` where none is known.
pub fn get_service_name(port: u16) -> (name: &'static str)
    ensures
        name@ == service_name(port),
{
    if port == 21 {
        "FTP"
    } else if port == 22 {
        "SSH"
    } else if port == 23 {
        "Telnet"
    } else if port == 25 {
        "SMTP"
    } else if port == 53 {
        "DNS"
    } else if port == 80 {
        "HTTP"
    } else if port == 110 {
        "POP3"
    } else if port == 135 {
        "MSRPC"
    } else if port == 139 {
        "NetBIOS"
    } else if port == 143 {
        "IMAP"
    } else if port == 443 {
        "HTTPS"
    } else if port == 445 {
        "SMB"
    } else if port == 1433 {
        "MSSQL"
    } else if port == 3306 {
        "MySQL"
    } else if port == 3389 {
        "RDP"
    } else if port == 5432 {
        "PostgreSQL"
    } else if port == 5900 {
        "VNC"
    } else if port == 8080 {
        "HTTP-Alt"
    } else if port == 8443 {
        "HTTPS-Alt"
    } else {
        "Unknown"
    }
}

/// The ports scanned on the local host by the audit.
pub const AUDITED_PORTS: [u16; 19] = [
    21, 22, 23, 25, 53, 80, 110, 135, 139, 143, 443, 445, 1433, 3306, 3389, 5432, 5900, 8080, 8443,
];

/// The risky ones among the first `n` of `ports`, in their order.
pub open spec fn risky_among(ports: Seq<u16>, n: nat) -> Seq<u16>
    decreases n,
{
    if n == 0 {
        seq![]
    } else if risky(ports[n - 1]) {
        risky_among(ports, (n - 1) as nat).push(ports[n - 1])
    } else {
        risky_among(ports, (n - 1) as nat)
    }
}

/// Picks the risky ports out of the open ones, in their order.
pub fn risky_ports(open_ports: &[u16]) -> (found: Vec<u16>)
    ensures
        found@ == risky_among(open_ports@, open_ports@.len()),
{
    let n = open_ports.len();
    let mut found: Vec<u16> = Vec::new();
    let mut i: usize = 0;
    while i < n
        invariant
            i <= n,
            n == open_ports@.len(),
            found@ == risky_among(open_ports@, i as nat),
        decreases n - i,
    {
        if is_risky_port(open_ports[i]) {
            found.push(open_ports[i]);
        }
        i = i + 1;
    }
    found
}

/// What the scan of the local ports concludes: a warning for every risky port
/// that is open, and no vulnerability.
pub fn port_findings(open_ports: &[u16]) -> (found: Findings)
    ensures
        found.vulnerabilities == 0,
        found.warnings == risky_among(open_ports@, open_ports@.len()).len(),
{
    Findings { vulnerabilities: 0, warnings: risky_ports(open_ports).len() }
}

/// What the test of a VPN concludes: a leak of DNS queries is a
/// vulnerability, and ends the test; a leak of IPv6 traffic is a warning.
pub fn vpn_findings(dns_leak: bool, ipv6_leak: bool) -> (found: Findings)
    ensures
        found == if dns_leak {
            (Findings { vulnerabilities: 1, warnings: 0 })
        } else if ipv6_leak {
            (Findings { vulnerabilities: 0, warnings: 1 })
        } else {
            (Findings { vulnerabilities: 0, warnings: 0 })
        },
{
    if dns_leak {
        Findings { vulnerabilities: 1, warnings: 0 }
    } else if ipv6_leak {
        Findings { vulnerabilities: 0, warnings: 1 }
    } else {
        Findings { vulnerabilities: 0, warnings: 0 }
    }
}

/// What the look for a man in the middle concludes: certificates that do not
/// match are a vulnerability.
pub fn mitm_findings(certificates_valid: bool) -> (found: Findings)
    ensures
        found == if certificates_valid {
            (Findings { vulnerabilities: 0, warnings: 0 })
        } else {
            (Findings { vulnerabilities: 1, warnings: 0 })
        },
{
    if certificates_valid {
        Findings { vulnerabilities: 0, warnings: 0 }
    } else {
        Findings { vulnerabilities: 1, warnings: 0 }
    }
}

/// An entry of the neighbour table: an address and the hardware address that
/// answers for it.
#[derive(Clone, Copy, Debug)]
pub struct ArpEntry {
    pub ip: Ipv4Address,
    pub mac: MacAddress,
}

/// Whether two entries name the same hardware address.
pub open spec fn same_mac(a: ArpEntry, b: ArpEntry) -> bool {
    a.mac.0@ == b.mac.0@
}

/// Whether the hardware address of entry `i` stands in no entry before it and
/// in one behind it: entry `i` is the first of several with that address.
pub open spec fn leads_a_group(table: Seq<ArpEntry>, i: int) -> bool {
    &&& forall|j: int| 0 <= j < i ==> !same_mac(table[j], table[i])
    &&& exists|j: int| i < j < table.len() && same_mac(table[j], table[i])
}

/// How many hardware addresses among the first `n` entries answer for more
/// than one entry of the table. Each is counted once, where it first stands.
pub open spec fn shared_mac_count(table: Seq<ArpEntry>, n: nat) -> nat
    decreases n,
{
    if n == 0 {
        0
    } else {
        shared_mac_count(table, (n - 1) as nat) + if leads_a_group(table, n - 1) {
            1nat
        } else {
            0nat
        }
    }
}

/// Tells whether two entries name the same hardware address.
fn macs_equal(a: &ArpEntry, b: &ArpEntry) -> (same: bool)
    ensures
        same == same_mac(*a, *b),
{
    let same = a.mac.0[0] == b.mac.0[0] && a.mac.0[1] == b.mac.0[1] && a.mac.0[2] == b.mac.0[2]
        && a.mac.0[3] == b.mac.0[3] && a.mac.0[4] == b.mac.0[4] && a.mac.0[5] == b.mac.0[5];
    proof {
        if same {
            assert(a.mac.0@ =~= b.mac.0@);
        }
    }
    same
}

/// Tells whether an entry in `from..to` names the hardware address of entry
/// `i`.
fn mac_occurs(table: &[ArpEntry], i: usize, from: usize, to: usize) -> (found: bool)
    requires
        i < table@.len(),
        from <= to <= table@.len(),
    ensures
        found == exists|j: int| from <= j < to && same_mac(table@[j], table@[i as int]),
{
    let mut j: usize = from;
    while j < to
        invariant
            from <= j <= to,
            to <= table@.len(),
            i < table@.len(),
            forall|k: int| from <= k < j ==> !same_mac(table@[k], table@[i as int]),
        decreases to - j,
    {
        if macs_equal(&table[j], &table[i]) {
            return true;
        }
        j = j + 1;
    }
    false
}

/// Counts the hardware addresses that answer for more than one address of the
/// neighbour table, which is how a forged answer shows.
pub fn count_shared_macs(table: &[ArpEntry]) -> (count: usize)
    ensures
        count == shared_mac_count(table@, table@.len()),
{
    let n = table.len();
    let mut count: usize = 0;
    let mut i: usize = 0;
    while i < n
        invariant
            i <= n,
            n == table@.len(),
            count == shared_mac_count(table@, i as nat),
            count <= i,
        decreases n - i,
    {
        let earlier = mac_occurs(table, i, 0, i);
        let later = mac_occurs(table, i, i + 1, n);
        if !earlier && later {
            count = count + 1;
        }
        i = i + 1;
    }
    count
}

/// What the look at the neighbour table concludes: every hardware address
/// that answers for several addresses is a vulnerability.
pub fn arp_findings(table: &[ArpEntry]) -> (found: Findings)
    ensures
        found.vulnerabilities == shared_mac_count(table@, table@.len()),
        found.warnings == 0,
{
    Findings { vulnerabilities: count_shared_macs(table), warnings: 0 }
}

impl Findings {
    /// No finding.
    pub fn none() -> (found: Findings)
        ensures
            found == (Findings { vulnerabilities: 0, warnings: 0 }),
    {
        Findings { vulnerabilities: 0, warnings: 0 }
    }

    /// The findings of two checks together, or nothing where a count does not
    /// fit the machine's word.
    pub fn merge(&self, other: &Findings) -> (sum: Option<Findings>)
        ensures
            self.vulnerabilities + other.vulnerabilities <= usize::MAX && self.warnings
                + other.warnings <= usize::MAX ==> sum == Some(
                Findings {
                    vulnerabilities: (self.vulnerabilities + other.vulnerabilities) as usize,
                    warnings: (self.warnings + other.warnings) as usize,
                },
            ),
            self.vulnerabilities + other.vulnerabilities > usize::MAX || self.warnings
                + other.warnings > usize::MAX ==> sum is None,
    {
        if other.vulnerabilities > usize::MAX - self.vulnerabilities || other.warnings > usize::MAX
            - self.warnings {
            None
        } else {
            Some(
                Findings {
                    vulnerabilities: self.vulnerabilities + other.vulnerabilities,
                    warnings: self.warnings + other.warnings,
                },
            )
        }
    }
}

} // verus!
