//! Helpers around addresses, ports, hardware addresses and clocks.

pub mod ip;
pub mod network;

use crate::clock::{since_unix_epoch, timestamp_of};
use crate::text::{
    hex_byte_text, parse_unsigned, push_hex_byte, split, split_chars, to_chars, unsigned_value,
    views,
};
use crate::utils::ip::{ipv4_value, parse_ipv4, Ipv4Address};
use std::time::SystemTime;
use vstd::arithmetic::power2::{
    lemma2_to64, lemma_pow2_strictly_increases, lemma_pow2_unfold, pow2,
};
use vstd::prelude::*;
use vstd::string::StringExecFns;

verus! {

/// The wall clock's time in microseconds since the start of 1970, reduced to
/// 64 bits; zero where the clock stands before 1970. The clock is read, and
/// `timestamp_of` makes the timestamp of the reading.
pub fn get_timestamp_us() -> u64 {
    let now = SystemTime::now();
    let reading = match since_unix_epoch(&now) {
        Ok(elapsed) => Some(elapsed.as_micros()),
        Err(_) => None,
    };
    timestamp_of(reading)
}

/// Why a text is no address block in CIDR notation.
#[derive(Clone, Copy, Debug, PartialEq, Eq, Structural)]
pub enum CidrError {
    /// The text is not two parts with one slash between them.
    InvalidFormat,
    /// The part before the slash is no IPv4 address.
    InvalidAddress,
    /// The part behind the slash is no number up to 255.
    InvalidPrefix,
    /// The prefix is longer than the 32 bits of an address.
    PrefixTooLong,
}

impl CidrError {
    /// What went wrong, in words.
    pub fn message(&self) -> (text: &'static str)
        ensures
            text@ == match *self {
                CidrError::InvalidFormat => "Invalid CIDR format"@,
                CidrError::InvalidAddress => "Invalid IP address"@,
                CidrError::InvalidPrefix => "Invalid prefix length"@,
                CidrError::PrefixTooLong => "Prefix length must be <= 32"@,
            },
    {
        match self {
            CidrError::InvalidFormat => "Invalid CIDR format",
            CidrError::InvalidAddress => "Invalid IP address",
            CidrError::InvalidPrefix => "Invalid prefix length",
            CidrError::PrefixTooLong => "Prefix length must be <= 32",
        }
    }
}

/// What a text in CIDR notation writes: an address, a slash and a prefix
/// length up to 32. The checks come in this order: the two parts, the
/// address, the number, its range.
pub open spec fn cidr_value(s: Seq<char>) -> Result<(Ipv4Address, u8), CidrError> {
    let parts = split(s, '/');
    if parts.len() != 2 {
        Err(CidrError::InvalidFormat)
    } else if ipv4_value(parts[0]) is None {
        Err(CidrError::InvalidAddress)
    } else if unsigned_value(parts[1], 255) is None {
        Err(CidrError::InvalidPrefix)
    } else if unsigned_value(parts[1], 255)->0 > 32 {
        Err(CidrError::PrefixTooLong)
    } else {
        Ok((Ipv4Address { bits: ipv4_value(parts[0])->0 }, unsigned_value(parts[1], 255)->0 as u8))
    }
}

/// Reads an address block in CIDR notation, as in `"192.168.1.0/24"`.
pub fn parse_cidr(cidr: &str) -> (r: Result<(Ipv4Address, u8), CidrError>)
    ensures
        r == cidr_value(cidr@),
{
    let chars = to_chars(cidr);
    let parts = split_chars(chars.as_slice(), '/');
    assert(views(parts@).len() == parts@.len());
    if parts.len() != 2 {
        return Err(CidrError::InvalidFormat);
    }
    assert(views(parts@)[0] == parts@[0]@);
    assert(views(parts@)[1] == parts@[1]@);
    let bits = match parse_ipv4(parts[0].as_slice()) {
        Some(bits) => bits,
        None => {
            return Err(CidrError::InvalidAddress);
        },
    };
    let prefix = match parse_unsigned(parts[1].as_slice(), 255) {
        Some(n) => n,
        None => {
            return Err(CidrError::InvalidPrefix);
        },
    };
    if prefix > 32 {
        return Err(CidrError::PrefixTooLong);
    }
    Ok((Ipv4Address { bits }, prefix as u8))
}

/// How many addresses a block with this prefix length holds.
pub open spec fn block_size(prefix: u8) -> nat {
    pow2((32 - prefix) as nat)
}

/// The first address of the block that `ip` lies in: the network address.
pub open spec fn network_of(ip: u32, prefix: u8) -> nat {
    (ip - ip as nat % block_size(prefix)) as nat
}

/// The addresses of a block that hosts can have: all but the network
/// address and the broadcast address, in rising order. Blocks of one or two
/// addresses have none.
pub open spec fn host_range(ip: u32, prefix: u8) -> Seq<Ipv4Address> {
    if block_size(prefix) <= 2 {
        seq![]
    } else {
        Seq::new(
            (block_size(prefix) - 2) as nat,
            |i: int| Ipv4Address { bits: (network_of(ip, prefix) + 1 + i) as u32 },
        )
    }
}

/// Two to the power of `exponent`.
fn power_of_two(exponent: u8) -> (p: u64)
    requires
        exponent <= 32,
    ensures
        p == pow2(exponent as nat),
        1 <= p <= 0x1_0000_0000,
        p * pow2((32 - exponent) as nat) == 0x1_0000_0000,
{
    let mut p: u64 = 1;
    let mut i: u8 = 0;
    proof {
        lemma2_to64();
        vstd::arithmetic::power2::lemma_pow2_adds(exponent as nat, (32 - exponent) as nat);
    }
    while i < exponent
        invariant
            i <= exponent <= 32,
            p == pow2(i as nat),
            1 <= p <= pow2(32),
            pow2(32) == 0x1_0000_0000,
        decreases exponent - i,
    {
        proof {
            lemma_pow2_unfold((i + 1) as nat);
            if i + 1 < 32 {
                lemma_pow2_strictly_increases((i + 1) as nat, 32);
            }
        }
        p = p * 2;
        i = i + 1;
    }
    p
}

/// Lists the addresses of the block of `ip` that hosts can have.
///
/// The prefix length is between 1 and 32, and the block is not the single
/// address 255.255.255.255.
pub fn cidr_to_range(ip: Ipv4Address, prefix: u8) -> (range: Vec<Ipv4Address>)
    requires
        1 <= prefix <= 32,
        !(prefix == 32 && ip.bits == u32::MAX),
    ensures
        range@ == host_range(ip.bits, prefix),
{
    let block = power_of_two(32 - prefix);
    proof {
        vstd::arithmetic::div_mod::lemma_mod_decreases(ip.bits as nat, block as nat);
    }
    let network: u64 = ip.bits as u64 - ip.bits as u64 % block;
    let mut range: Vec<Ipv4Address> = Vec::new();
    if block <= 2 {
        return range;
    }
    let count: u64 = block - 2;
    let mut i: u64 = 0;
    proof {
        let b = block as int;
        let q = ip.bits as int / b;
        let top = pow2(prefix as nat) as int;
        assert(b * top == 0x1_0000_0000);
        vstd::arithmetic::div_mod::lemma_fundamental_div_mod(ip.bits as int, b);
        assert(network == b * q);
        assert(q < top) by (nonlinear_arith)
            requires
                b * q <= ip.bits,
                ip.bits < b * top,
                b > 0,
        ;
        assert(b * (q + 1) <= b * top) by (nonlinear_arith)
            requires
                q < top,
                b > 0,
        ;
        assert(b * (q + 1) == b * q + b) by (nonlinear_arith);
    }
    while i < count
        invariant
            i <= count,
            count == block - 2,
            network + block <= 0x1_0000_0000,
            block == block_size(prefix),
            network == network_of(ip.bits, prefix),
            range@ == host_range(ip.bits, prefix).take(i as int),
        decreases count - i,
    {
        range.push(Ipv4Address { bits: (network + 1 + i) as u32 });
        i = i + 1;
        assert(range@ =~= host_range(ip.bits, prefix).take(i as int));
    }
    assert(host_range(ip.bits, prefix).take(count as int) =~= host_range(ip.bits, prefix));
    range
}

/// A hardware address of six bytes.
#[derive(Debug, Clone, Copy, Hash, PartialEq, Eq)]
pub struct MacAddress(pub [u8; 6]);

/// The text of a hardware address: its six bytes in lower-case hexadecimal,
/// two digits each, with colons between them.
pub open spec fn mac_text(bytes: Seq<u8>) -> Seq<char> {
    hex_byte_text(bytes[0]) + seq![':'] + hex_byte_text(bytes[1]) + seq![':'] + hex_byte_text(
        bytes[2],
    ) + seq![':'] + hex_byte_text(bytes[3]) + seq![':'] + hex_byte_text(bytes[4]) + seq![':']
        + hex_byte_text(bytes[5])
}

/// The maker that the first three bytes of a hardware address stand for.
pub open spec fn vendor_name(a: u8, b: u8, c: u8) -> Seq<char> {
    if (a == 0x00 && b == 0x50 && c == 0x56) || (a == 0x00 && b == 0x0c && c == 0x29) {
        "VMware"@
    } else if a == 0x08 && b == 0x00 && c == 0x27 {
        "VirtualBox"@
    } else if a == 0x52 && b == 0x54 && c == 0x00 {
        "QEMU/KVM"@
    } else if a == 0x00 && b == 0x1c && c == 0x42 {
        "Parallels"@
    } else if (a == 0xdc && b == 0xa6 && c == 0x32) || (a == 0xb8 && b == 0x27 && c == 0xeb) {
        "Raspberry Pi"@
    } else if (a == 0xf0 && b == 0x18 && c == 0x98) || (a == 0x00 && b == 0x1b && c == 0x63) {
        "Apple"@
    } else {
        "Unknown"@
    }
}

impl MacAddress {
    /// The hardware address with these six bytes.
    pub fn new(bytes: [u8; 6]) -> (mac: MacAddress)
        ensures
            mac.0 == bytes,
    {
        MacAddress(bytes)
    }

    /// The address as text, as in `"00:50:56:c0:00:08"`.
    pub fn to_string(&self) -> (text: String)
        ensures
            text@ == mac_text(self.0@),
    {
        proof {
            reveal_strlit(":");
        }
        let mut text = String::new();
        push_hex_byte(&mut text, self.0[0]);
        text.append(":");
        push_hex_byte(&mut text, self.0[1]);
        text.append(":");
        push_hex_byte(&mut text, self.0[2]);
        text.append(":");
        push_hex_byte(&mut text, self.0[3]);
        text.append(":");
        push_hex_byte(&mut text, self.0[4]);
        text.append(":");
        push_hex_byte(&mut text, self.0[5]);
        assert(":"@ =~= seq![':']);
        assert(text@ =~= mac_text(self.0@));
        text
    }

    /// The maker of the device, as far as the first three bytes tell.
    pub fn vendor(&self) -> (name: &'static str)
        ensures
            name@ == vendor_name(self.0[0], self.0[1], self.0[2]),
    {
        let a = self.0[0];
        let b = self.0[1];
        let c = self.0[2];
        if (a == 0x00 && b == 0x50 && c == 0x56) || (a == 0x00 && b == 0x0c && c == 0x29) {
            "VMware"
        } else if a == 0x08 && b == 0x00 && c == 0x27 {
            "VirtualBox"
        } else if a == 0x52 && b == 0x54 && c == 0x00 {
            "QEMU/KVM"
        } else if a == 0x00 && b == 0x1c && c == 0x42 {
            "Parallels"
        } else if (a == 0xdc && b == 0xa6 && c == 0x32) || (a == 0xb8 && b == 0x27 && c == 0xeb) {
            "Raspberry Pi"
        } else if (a == 0xf0 && b == 0x18 && c == 0x98) || (a == 0x00 && b == 0x1b && c == 0x63) {
            "Apple"
        } else {
            "Unknown"
        }
    }
}

} // verus!
