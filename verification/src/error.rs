//! The result codes shared by every engine operation.

use crate::text::{decimal_text, push_decimal};
use crate::utils::ip::{ip_int_to_str, ipv4_text, Ipv4Address};
use vstd::prelude::*;
use vstd::string::StringExecFns;

verus! {

/// How an engine operation ended. `Success` is the only variant that is not an
/// error.
#[derive(Clone, Copy, Debug, PartialEq, Eq, Structural)]
pub enum ErrorCode {
    /// The operation did what was asked.
    Success,
    /// A malformed address string, an empty input or a buffer that is too small.
    InvalidParameter,
    /// The payload does not fit an IPv4 packet.
    PacketTooLarge,
    /// Received bytes are truncated or malformed.
    PacketParseFailed,
    /// The pool is exhausted or its backing memory cannot be had.
    AllocationFailure,
    /// The process lacks the privilege that raw sockets need.
    PermissionDenied,
    /// The operating system refused a transport operation.
    SocketError,
    /// No reply came within the deadline.
    Timeout,
}

impl ErrorCode {
    /// The number that stands for each code, in the order of the taxonomy.
    pub open spec fn spec_code(self) -> u8 {
        match self {
            ErrorCode::Success => 0,
            ErrorCode::InvalidParameter => 1,
            ErrorCode::PacketTooLarge => 2,
            ErrorCode::PacketParseFailed => 3,
            ErrorCode::AllocationFailure => 4,
            ErrorCode::PermissionDenied => 5,
            ErrorCode::SocketError => 6,
            ErrorCode::Timeout => 7,
        }
    }

    /// The number that stands for this code.
    pub fn code(&self) -> (n: u8)
        ensures
            n == self.spec_code(),
    {
        match self {
            ErrorCode::Success => 0,
            ErrorCode::InvalidParameter => 1,
            ErrorCode::PacketTooLarge => 2,
            ErrorCode::PacketParseFailed => 3,
            ErrorCode::AllocationFailure => 4,
            ErrorCode::PermissionDenied => 5,
            ErrorCode::SocketError => 6,
            ErrorCode::Timeout => 7,
        }
    }

    /// The code that `n` stands for, if any.
    pub fn from_code(n: u8) -> (r: Option<ErrorCode>)
        ensures
            n <= 7 ==> r is Some && r->0.spec_code() == n,
            n > 7 ==> r is None,
    {
        match n {
            0 => Some(ErrorCode::Success),
            1 => Some(ErrorCode::InvalidParameter),
            2 => Some(ErrorCode::PacketTooLarge),
            3 => Some(ErrorCode::PacketParseFailed),
            4 => Some(ErrorCode::AllocationFailure),
            5 => Some(ErrorCode::PermissionDenied),
            6 => Some(ErrorCode::SocketError),
            7 => Some(ErrorCode::Timeout),
            _ => None,
        }
    }

    /// Whether this is the one code that reports no error.
    pub fn is_success(&self) -> (b: bool)
        ensures
            b == (*self == ErrorCode::Success),
    {
        match self {
            ErrorCode::Success => true,
            _ => false,
        }
    }
}

/// What went wrong in the toolkit, with what it went wrong on.
#[derive(Debug)]
pub enum NetweaverError {
    /// A connection could not be made.
    ConnectionFailed { host: String, port: u16, reason: String },
    /// A host did not answer.
    HostUnreachable { ip: Ipv4Address, attempts: u32 },
    /// A port scan could not be carried out.
    PortScanFailed { ip: Ipv4Address, details: String },
    /// A host name could not be resolved.
    DnsResolutionFailed { hostname: String, reason: String },
    /// A packet could not be crafted.
    PacketCraftFailed { packet_type: String, reason: String },
    /// Received bytes could not be decoded.
    PacketParseFailed { details: String },
    /// The operating system refused a socket operation.
    SocketError { operation: String, reason: String },
    /// The process lacks a privilege.
    PermissionDenied { operation: String },
    /// A setting is wrong.
    ConfigError { field: String, reason: String },
    /// An operation took too long.
    Timeout { operation: String, duration_ms: u64 },
    /// A limit was reached.
    ResourceExhausted { resource: String, details: String },
    /// An argument is wrong.
    InvalidParameter { param: String, reason: String },
    /// A file could not be read or written.
    FileError { path: String, reason: String },
    /// Data could not be written out or read in.
    SerializationError { operation: String, format: String, details: String },
}

/// The message of an error.
pub open spec fn error_text(e: NetweaverError) -> Seq<char> {
    match e {
        NetweaverError::ConnectionFailed { host, port, reason } => "Failed to connect to "@ + host@
            + ":"@ + decimal_text(port as nat) + " - "@ + reason@,
        NetweaverError::HostUnreachable { ip, attempts } => "Host "@ + ipv4_text(ip.bits)
            + " is unreachable after "@ + decimal_text(attempts as nat) + " attempts"@,
        NetweaverError::PortScanFailed { ip, details } => "Port scan failed for "@ + ipv4_text(
            ip.bits,
        ) + " - "@ + details@,
        NetweaverError::DnsResolutionFailed { hostname, reason } => "Failed to resolve hostname '"@
            + hostname@ + "' - "@ + reason@,
        NetweaverError::PacketCraftFailed { packet_type, reason } => "Failed to craft "@
            + packet_type@ + " packet - "@ + reason@,
        NetweaverError::PacketParseFailed { details } => "Failed to parse packet: "@ + details@,
        NetweaverError::SocketError { operation, reason } => "Socket operation failed: "@
            + operation@ + " - "@ + reason@,
        NetweaverError::PermissionDenied { operation } => "Insufficient privileges for "@
            + operation@ + ". Try running with sudo."@,
        NetweaverError::ConfigError { field, reason } => "Invalid configuration: "@ + field@
            + " - "@ + reason@,
        NetweaverError::Timeout { operation, duration_ms } => "Operation timed out after "@
            + decimal_text(duration_ms as nat) + "ms: "@ + operation@,
        NetweaverError::ResourceExhausted { resource, details } => "Resource limit exceeded: "@
            + resource@ + " - "@ + details@,
        NetweaverError::InvalidParameter { param, reason } => "Invalid parameter: "@ + param@
            + " - "@ + reason@,
        NetweaverError::FileError { path, reason } => "File operation failed: "@ + path@ + " - "@
            + reason@,
        NetweaverError::SerializationError { operation, format, details } => "Failed to "@
            + operation@ + " "@ + format@ + " data - "@ + details@,
    }
}

/// Joins three texts into one.
fn three(a: &str, b: &str, c: &str) -> (s: String)
    ensures
        s@ == a@ + b@ + c@,
{
    let mut s = String::from_str(a);
    s.append(b);
    s.append(c);
    s
}

/// Joins four texts into one.
fn four(a: &str, b: &str, c: &str, d: &str) -> (s: String)
    ensures
        s@ == a@ + b@ + c@ + d@,
{
    let mut s = three(a, b, c);
    s.append(d);
    s
}

impl NetweaverError {
    /// The message of the error.
    pub fn to_string(&self) -> (message: String)
        ensures
            message@ == error_text(*self),
    {
        match self {
            NetweaverError::ConnectionFailed { host, port, reason } => {
                let mut s = three("Failed to connect to ", host.as_str(), ":");
                push_decimal(&mut s, *port as u64);
                s.append(" - ");
                s.append(reason.as_str());
                s
            },
            NetweaverError::HostUnreachable { ip, attempts } => {
                let address = ip_int_to_str(ip.bits);
                let mut s = three("Host ", address.as_str(), " is unreachable after ");
                push_decimal(&mut s, *attempts as u64);
                s.append(" attempts");
                s
            },
            NetweaverError::PortScanFailed { ip, details } => {
                let address = ip_int_to_str(ip.bits);
                four("Port scan failed for ", address.as_str(), " - ", details.as_str())
            },
            NetweaverError::DnsResolutionFailed { hostname, reason } => four(
                "Failed to resolve hostname '",
                hostname.as_str(),
                "' - ",
                reason.as_str(),
            ),
            NetweaverError::PacketCraftFailed { packet_type, reason } => four(
                "Failed to craft ",
                packet_type.as_str(),
                " packet - ",
                reason.as_str(),
            ),
            NetweaverError::PacketParseFailed { details } => {
                let mut s = String::from_str("Failed to parse packet: ");
                s.append(details.as_str());
                s
            },
            NetweaverError::SocketError { operation, reason } => four(
                "Socket operation failed: ",
                operation.as_str(),
                " - ",
                reason.as_str(),
            ),
            NetweaverError::PermissionDenied { operation } => three(
                "Insufficient privileges for ",
                operation.as_str(),
                ". Try running with sudo.",
            ),
            NetweaverError::ConfigError { field, reason } => four(
                "Invalid configuration: ",
                field.as_str(),
                " - ",
                reason.as_str(),
            ),
            NetweaverError::Timeout { operation, duration_ms } => {
                let mut s = String::from_str("Operation timed out after ");
                push_decimal(&mut s, *duration_ms);
                s.append("ms: ");
                s.append(operation.as_str());
                s
            },
            NetweaverError::ResourceExhausted { resource, details } => four(
                "Resource limit exceeded: ",
                resource.as_str(),
                " - ",
                details.as_str(),
            ),
            NetweaverError::InvalidParameter { param, reason } => four(
                "Invalid parameter: ",
                param.as_str(),
                " - ",
                reason.as_str(),
            ),
            NetweaverError::FileError { path, reason } => four(
                "File operation failed: ",
                path.as_str(),
                " - ",
                reason.as_str(),
            ),
            NetweaverError::SerializationError { operation, format, details } => {
                let mut s = four("Failed to ", operation.as_str(), " ", format.as_str());
                s.append(" data - ");
                s.append(details.as_str());
                s
            },
        }
    }
}

/// Turns the error of any result into an error of the toolkit that says where
/// it happened. A success passes through as it is.
pub trait ErrorContext<T> {
    /// The error becomes a failed connection to `host` and `port`.
    fn with_host_context(self, host: &str, port: u16) -> Result<T, NetweaverError>;

    /// The error becomes a failed port scan of `ip`.
    fn with_ip_context(self, ip: Ipv4Address) -> Result<T, NetweaverError>;

    /// The error becomes a failed socket operation.
    fn with_operation_context(self, operation: &str) -> Result<T, NetweaverError>;
}

impl<T, E: core::fmt::Display> ErrorContext<T> for Result<T, E> {
    fn with_host_context(self, host: &str, port: u16) -> (r: Result<T, NetweaverError>)
        ensures
            self is Ok ==> r is Ok && r->Ok_0 == self->Ok_0,
            self is Err ==> r is Err && r->Err_0 is ConnectionFailed
                && r->Err_0->ConnectionFailed_host@ == host@ && r->Err_0->ConnectionFailed_port
                == port && vstd::string::to_string_from_display_ensures::<E>(
                &self->Err_0,
                r->Err_0->ConnectionFailed_reason,
            ),
    {
        match self {
            Ok(value) => Ok(value),
            Err(e) => Err(
                NetweaverError::ConnectionFailed {
                    host: String::from_str(host),
                    port,
                    reason: e.to_string(),
                },
            ),
        }
    }

    fn with_ip_context(self, ip: Ipv4Address) -> (r: Result<T, NetweaverError>)
        ensures
            self is Ok ==> r is Ok && r->Ok_0 == self->Ok_0,
            self is Err ==> r is Err && r->Err_0 is PortScanFailed && r->Err_0->PortScanFailed_ip
                == ip && vstd::string::to_string_from_display_ensures::<E>(
                &self->Err_0,
                r->Err_0->PortScanFailed_details,
            ),
    {
        match self {
            Ok(value) => Ok(value),
            Err(e) => Err(NetweaverError::PortScanFailed { ip, details: e.to_string() }),
        }
    }

    fn with_operation_context(self, operation: &str) -> (r: Result<T, NetweaverError>)
        ensures
            self is Ok ==> r is Ok && r->Ok_0 == self->Ok_0,
            self is Err ==> r is Err && r->Err_0 is SocketError
                && r->Err_0->SocketError_operation@ == operation@
                && vstd::string::to_string_from_display_ensures::<E>(
                &self->Err_0,
                r->Err_0->SocketError_reason,
            ),
    {
        match self {
            Ok(value) => Ok(value),
            Err(e) => Err(
                NetweaverError::SocketError {
                    operation: String::from_str(operation),
                    reason: e.to_string(),
                },
            ),
        }
    }
}

} // verus!
