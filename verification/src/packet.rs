//! The packet model: header fields beside the encoded bytes.

use vstd::prelude::*;

verus! {

/// Bytes of an IPv4 header without options.
pub const IPV4_HEADER_SIZE: usize = 20;

/// Bytes of an ICMP echo header.
pub const ICMP_HEADER_SIZE: usize = 8;

/// Bytes of a TCP header without options.
pub const TCP_HEADER_SIZE: usize = 20;

/// Bytes of a UDP header.
pub const UDP_HEADER_SIZE: usize = 8;

/// The largest IPv4 packet, header included.
pub const MAX_PACKET_SIZE: usize = 65535;

/// The largest payload a UDP datagram can carry inside one IPv4 packet.
pub const MAX_UDP_PAYLOAD: usize = 65507;

/// Bytes in the backing buffer of a packet made by `Packet::new`.
pub const DEFAULT_CAPACITY: usize = 1500;

/// The IPv4 protocol number of ICMP.
pub const IPPROTO_ICMP: u8 = 1;

/// The IPv4 protocol number of TCP.
pub const IPPROTO_TCP: u8 = 6;

/// The IPv4 protocol number of UDP.
pub const IPPROTO_UDP: u8 = 17;

/// The time to live that crafted packets start with.
pub const DEFAULT_TTL: u8 = 64;

/// The receive window that a crafted SYN announces.
pub const SYN_WINDOW: u16 = 0xFFFF;

/// The protocol that a packet carries above IPv4.
#[derive(Clone, Copy, Debug, PartialEq, Eq, Structural)]
pub enum Protocol {
    ICMP,
    TCP,
    UDP,
    OTHER,
}

impl Protocol {
    /// The tag that stands for an IPv4 protocol number.
    pub open spec fn spec_from_number(number: u8) -> Protocol {
        if number == IPPROTO_ICMP {
            Protocol::ICMP
        } else if number == IPPROTO_TCP {
            Protocol::TCP
        } else if number == IPPROTO_UDP {
            Protocol::UDP
        } else {
            Protocol::OTHER
        }
    }

    /// The tag that stands for an IPv4 protocol number.
    pub fn from_number(number: u8) -> (p: Protocol)
        ensures
            p == Protocol::spec_from_number(number),
    {
        if number == IPPROTO_ICMP {
            Protocol::ICMP
        } else if number == IPPROTO_TCP {
            Protocol::TCP
        } else if number == IPPROTO_UDP {
            Protocol::UDP
        } else {
            Protocol::OTHER
        }
    }

    /// The fewest bytes a packet of this protocol can have: the IPv4 header
    /// and the protocol's own.
    pub open spec fn spec_min_size(self) -> nat {
        match self {
            Protocol::ICMP => 28,
            Protocol::TCP => 40,
            Protocol::UDP => 28,
            Protocol::OTHER => 20,
        }
    }

    /// The fewest bytes a packet of this protocol can have.
    pub fn min_size(&self) -> (n: usize)
        ensures
            n == self.spec_min_size(),
    {
        match self {
            Protocol::ICMP => IPV4_HEADER_SIZE + ICMP_HEADER_SIZE,
            Protocol::TCP => IPV4_HEADER_SIZE + TCP_HEADER_SIZE,
            Protocol::UDP => IPV4_HEADER_SIZE + UDP_HEADER_SIZE,
            Protocol::OTHER => IPV4_HEADER_SIZE,
        }
    }
}

/// A packet as the engine holds it: the header fields that callers read, and
/// the encoded bytes in a backing buffer of fixed capacity.
///
/// `data` is the backing buffer; its length is the capacity. The first
/// `length` bytes of it are the packet as it goes on the wire.
#[derive(Debug)]
pub struct Packet {
    pub protocol: Protocol,
    pub length: usize,
    pub src_ip: u32,
    pub dst_ip: u32,
    pub src_port: u16,
    pub dst_port: u16,
    pub checksum: u16,
    pub data: Vec<u8>,
}

impl Packet {
    /// The capacity of the backing buffer.
    pub open spec fn spec_capacity(&self) -> nat {
        self.data@.len()
    }

    /// The bytes that go on the wire: the first `length` bytes of the buffer.
    pub open spec fn wire(&self) -> Seq<u8> {
        self.data@.subrange(0, self.length as int)
    }

    /// The length stays within the backing buffer.
    pub open spec fn wf(&self) -> bool {
        self.length <= self.data@.len()
    }

    /// A packet with nothing in it and no protocol.
    pub open spec fn is_empty(&self) -> bool {
        &&& self.protocol == Protocol::OTHER
        &&& self.length == 0
        &&& self.src_ip == 0
        &&& self.dst_ip == 0
        &&& self.src_port == 0
        &&& self.dst_port == 0
        &&& self.checksum == 0
        &&& forall|i: int| 0 <= i < self.data@.len() ==> self.data@[i] == 0
    }

    /// An empty packet over a zeroed buffer of the default capacity.
    pub fn new() -> (p: Packet)
        ensures
            p.is_empty(),
            p.spec_capacity() == DEFAULT_CAPACITY,
            p.wf(),
    {
        Packet::with_capacity(DEFAULT_CAPACITY)
    }

    /// An empty packet over a zeroed buffer of `capacity` bytes.
    pub fn with_capacity(capacity: usize) -> (p: Packet)
        ensures
            p.is_empty(),
            p.spec_capacity() == capacity,
            p.wf(),
    {
        Packet {
            protocol: Protocol::OTHER,
            length: 0,
            src_ip: 0,
            dst_ip: 0,
            src_port: 0,
            dst_port: 0,
            checksum: 0,
            data: vec![0u8; capacity],
        }
    }

    /// The capacity of the backing buffer.
    pub fn capacity(&self) -> (n: usize)
        ensures
            n == self.spec_capacity(),
    {
        self.data.len()
    }

    /// The bytes that go on the wire, or nothing where the length runs past
    /// the buffer.
    pub fn bytes(&self) -> (b: &[u8])
        ensures
            self.wf() ==> b@ == self.wire(),
            !self.wf() ==> b@.len() == 0,
    {
        if self.length <= self.data.len() {
            vstd::slice::slice_subrange(self.data.as_slice(), 0, self.length)
        } else {
            vstd::slice::slice_subrange(self.data.as_slice(), 0, 0)
        }
    }
}

} // verus!
