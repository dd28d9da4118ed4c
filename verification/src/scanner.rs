//! What a scan concludes about a host from its open ports.

use vstd::prelude::*;
use vstd::string::StringExecFns;

verus! {

/// Whether `port` is among `ports`.
pub open spec fn has_port(ports: Seq<u16>, port: u16) -> bool {
    exists|i: int| 0 <= i < ports.len() && ports[i] == port
}

/// The operating system that the open ports point to: remote desktop means
/// Windows; secure shell together with a web server means Linux; file
/// sharing for Macs or screen sharing means macOS; a reply within a
/// millisecond from a host with more than five open ports means a router or
/// switch nearby. The first that applies is taken, and none may apply.
pub open spec fn os_guess(open_ports: Seq<u16>, latency_us: u64) -> Option<Seq<char>> {
    if has_port(open_ports, 3389) {
        Some("Windows"@)
    } else if has_port(open_ports, 22) && has_port(open_ports, 80) {
        Some("Linux"@)
    } else if has_port(open_ports, 548) || has_port(open_ports, 5900) {
        Some("macOS"@)
    } else if latency_us < 1000 && open_ports.len() > 5 {
        Some("Local Router/Switch"@)
    } else {
        None
    }
}

/// Tells whether `port` is among `ports`.
pub fn contains_port(ports: &[u16], port: u16) -> (found: bool)
    ensures
        found == has_port(ports@, port),
{
    let n = ports.len();
    let mut i: usize = 0;
    while i < n
        invariant
            i <= n,
            n == ports@.len(),
            forall|j: int| 0 <= j < i ==> ports@[j] != port,
        decreases n - i,
    {
        if ports[i] == port {
            return true;
        }
        i = i + 1;
    }
    false
}

/// Guesses the operating system of a host from its open ports and from the
/// time its first reply took, in microseconds. This is a guess from habits,
/// not an identification.
pub fn guess_os(open_ports: &[u16], latency_us: u64) -> (guess: Option<String>)
    ensures
        guess is Some <==> os_guess(open_ports@, latency_us) is Some,
        guess is Some ==> guess->0@ == os_guess(open_ports@, latency_us)->0,
{
    if contains_port(open_ports, 3389) {
        Some(String::from_str("Windows"))
    } else if contains_port(open_ports, 22) && contains_port(open_ports, 80) {
        Some(String::from_str("Linux"))
    } else if contains_port(open_ports, 548) || contains_port(open_ports, 5900) {
        Some(String::from_str("macOS"))
    } else if latency_us < 1000 && open_ports.len() > 5 {
        Some(String::from_str("Local Router/Switch"))
    } else {
        None
    }
}

/// The service that a scan names beside an open port.
pub open spec fn scanned_service(port: u16) -> Seq<char> {
    if port == 21 {
        "FTP"@
    } else if port == 22 {
        "SSH"@
    } else if port == 23 {
        "Telnet"@
    } else if port == 25 {
        "SMTP"@
    } else if port == 53 {
        "DNS"@
    } else if port == 80 {
        "HTTP"@
    } else if port == 110 {
        "POP3"@
    } else if port == 143 {
        "IMAP"@
    } else if port == 443 {
        "HTTPS"@
    } else if port == 445 {
        "SMB"@
    } else if port == 3306 {
        "MySQL"@
    } else if port == 3389 {
        "RDP"@
    } else if port == 5432 {
        "PostgreSQL"@
    } else if port == 5900 {
        "VNC"@
    } else if port == 8080 {
        "HTTP-Alt"@
    } else if port == 8443 {
        "HTTPS-Alt"@
    } else {
        ""@
    }
}

/// The service that a scan names beside an open port; the empty text where it
/// names none.
pub fn port_service(port: u16) -> (name: &'static str)
    ensures
        name@ == scanned_service(port),
{
    if port == 21 {
        "FTP"
    } else if port == 22 {
        "SSH"
    } else if port == 23 {
        "Telnet"
    } else if port == 25 {
        "SMTP"
    } else if port == 53 {
        "DNS"
    } else if port == 80 {
        "HTTP"
    } else if port == 110 {
        "POP3"
    } else if port == 143 {
        "IMAP"
    } else if port == 443 {
        "HTTPS"
    } else if port == 445 {
        "SMB"
    } else if port == 3306 {
        "MySQL"
    } else if port == 3389 {
        "RDP"
    } else if port == 5432 {
        "PostgreSQL"
    } else if port == 5900 {
        "VNC"
    } else if port == 8080 {
        "HTTP-Alt"
    } else if port == 8443 {
        "HTTPS-Alt"
    } else {
        ""
    }
}

} // verus!
