//! IPv4 addresses: as 32-bit numbers, as dotted text, and the blocks they
//! fall into.

use crate::error::ErrorCode;
use crate::text::{
    all_digits, decimal_text, decimal_value, is_canonical_decimal, is_digit, join,
    lemma_decimal_text, lemma_decimal_text_of_value, lemma_join_split, lemma_split_first,
    lemma_split_none, parse_canonical, push_decimal, split, split_chars, to_chars, views,
};
use vstd::prelude::*;
use vstd::string::StringExecFns;

verus! {

/// An IPv4 address, held as its 32-bit number: the first octet is the most
/// significant byte.
#[derive(Clone, Copy, Debug, PartialEq, Eq, Structural)]
pub struct Ipv4Address {
    pub bits: u32,
}

/// The number whose four bytes, most significant first, are the octets.
pub open spec fn address_of(a: u8, b: u8, c: u8, d: u8) -> u32 {
    (a as int * 0x100_0000 + b as int * 0x1_0000 + c as int * 0x100 + d as int) as u32
}

/// The octet of `ip` at `index`, the most significant being the first.
pub open spec fn octet(ip: u32, index: int) -> u8 {
    if index == 0 {
        (ip / 0x100_0000) as u8
    } else if index == 1 {
        ((ip / 0x1_0000) % 256) as u8
    } else if index == 2 {
        ((ip / 0x100) % 256) as u8
    } else {
        (ip % 256) as u8
    }
}

/// The octet that `s` writes: a number up to 255 without sign or leading
/// zeros.
pub open spec fn octet_value(s: Seq<char>) -> Option<u8> {
    if is_canonical_decimal(s) && decimal_value(s) <= 255 {
        Some(decimal_value(s) as u8)
    } else {
        None
    }
}

/// The address that the dotted text `s` writes: four octets with dots
/// between them and nothing else.
pub open spec fn ipv4_value(s: Seq<char>) -> Option<u32> {
    let p = split(s, '.');
    if p.len() == 4 && octet_value(p[0]) is Some && octet_value(p[1]) is Some && octet_value(
        p[2],
    ) is Some && octet_value(p[3]) is Some {
        Some(
            address_of(
                octet_value(p[0])->0,
                octet_value(p[1])->0,
                octet_value(p[2])->0,
                octet_value(p[3])->0,
            ),
        )
    } else {
        None
    }
}

/// The dotted text of an address.
pub open spec fn ipv4_text(ip: u32) -> Seq<char> {
    decimal_text(octet(ip, 0) as nat) + seq!['.'] + decimal_text(octet(ip, 1) as nat) + seq!['.']
        + decimal_text(octet(ip, 2) as nat) + seq!['.'] + decimal_text(octet(ip, 3) as nat)
}

/// The octets of the address made of four octets are those four.
pub proof fn lemma_octets_of_address(a: u8, b: u8, c: u8, d: u8)
    ensures
        octet(address_of(a, b, c, d), 0) == a,
        octet(address_of(a, b, c, d), 1) == b,
        octet(address_of(a, b, c, d), 2) == c,
        octet(address_of(a, b, c, d), 3) == d,
{
}

/// An address is made of its four octets.
pub proof fn lemma_address_of_octets(ip: u32)
    ensures
        address_of(octet(ip, 0), octet(ip, 1), octet(ip, 2), octet(ip, 3)) == ip,
{
}

/// Four pieces joined are the pieces with three separators between them.
proof fn lemma_join_four(p: Seq<Seq<char>>, sep: char)
    requires
        p.len() == 4,
    ensures
        join(p, sep) == p[0] + seq![sep] + p[1] + seq![sep] + p[2] + seq![sep] + p[3],
{
    let tail1 = p.skip(1);
    let tail2 = tail1.skip(1);
    let tail3 = tail2.skip(1);
    assert(tail1[0] == p[1] && tail2[0] == p[2] && tail3[0] == p[3]);
    assert(join(tail3, sep) == p[3]);
    assert(join(tail2, sep) == p[2] + seq![sep] + join(tail3, sep));
    assert(join(tail1, sep) == p[1] + seq![sep] + join(tail2, sep));
    assert(join(p, sep) == p[0] + seq![sep] + join(tail1, sep));
    assert(p[0] + seq![sep] + (p[1] + seq![sep] + (p[2] + seq![sep] + p[3])) =~= p[0] + seq![sep]
        + p[1] + seq![sep] + p[2] + seq![sep] + p[3]);
}

/// Every valid dotted text is the text of the address it writes: reading an
/// address and writing it again gives the same text.
pub proof fn lemma_text_of_value(s: Seq<char>)
    requires
        ipv4_value(s) is Some,
    ensures
        ipv4_text(ipv4_value(s)->0) == s,
{
    let p = split(s, '.');
    let a = octet_value(p[0])->0;
    let b = octet_value(p[1])->0;
    let c = octet_value(p[2])->0;
    let d = octet_value(p[3])->0;
    lemma_octets_of_address(a, b, c, d);
    lemma_decimal_text_of_value(p[0]);
    lemma_decimal_text_of_value(p[1]);
    lemma_decimal_text_of_value(p[2]);
    lemma_decimal_text_of_value(p[3]);
    lemma_join_split(s, '.');
    lemma_join_four(p, '.');
}

/// Four pieces without the separator, laid end to end with the separator
/// between them, split into those four.
proof fn lemma_split_four(a: Seq<char>, b: Seq<char>, c: Seq<char>, d: Seq<char>, sep: char)
    requires
        forall|j: int| 0 <= j < a.len() ==> a[j] != sep,
        forall|j: int| 0 <= j < b.len() ==> b[j] != sep,
        forall|j: int| 0 <= j < c.len() ==> c[j] != sep,
        forall|j: int| 0 <= j < d.len() ==> d[j] != sep,
    ensures
        split(a + seq![sep] + b + seq![sep] + c + seq![sep] + d, sep) == seq![a, b, c, d],
{
    let rest2 = c + seq![sep] + d;
    let rest1 = b + seq![sep] + rest2;
    let whole = a + seq![sep] + rest1;
    lemma_split_none(d, sep);
    lemma_split_first(c, sep, d);
    lemma_split_first(b, sep, rest2);
    lemma_split_first(a, sep, rest1);
    assert(split(rest2, sep) =~= seq![c, d]);
    assert(split(rest1, sep) =~= seq![b, c, d]);
    assert(split(whole, sep) =~= seq![a, b, c, d]);
    assert(whole =~= a + seq![sep] + b + seq![sep] + c + seq![sep] + d);
}

/// The text of every address is valid and writes that address: writing an
/// address and reading it again gives the same address.
pub proof fn lemma_value_of_text(ip: u32)
    ensures
        ipv4_value(ipv4_text(ip)) == Some(ip),
{
    let a = decimal_text(octet(ip, 0) as nat);
    let b = decimal_text(octet(ip, 1) as nat);
    let c = decimal_text(octet(ip, 2) as nat);
    let d = decimal_text(octet(ip, 3) as nat);
    lemma_decimal_text(octet(ip, 0) as nat);
    lemma_decimal_text(octet(ip, 1) as nat);
    lemma_decimal_text(octet(ip, 2) as nat);
    lemma_decimal_text(octet(ip, 3) as nat);
    lemma_digits_hold_no_dot(a);
    lemma_digits_hold_no_dot(b);
    lemma_digits_hold_no_dot(c);
    lemma_digits_hold_no_dot(d);
    lemma_split_four(a, b, c, d, '.');
    let p = split(ipv4_text(ip), '.');
    assert(p == seq![a, b, c, d]);
    assert(p[0] == a && p[1] == b && p[2] == c && p[3] == d);
    assert(octet_value(a) == Some(octet(ip, 0)));
    assert(octet_value(b) == Some(octet(ip, 1)));
    assert(octet_value(c) == Some(octet(ip, 2)));
    assert(octet_value(d) == Some(octet(ip, 3)));
    lemma_address_of_octets(ip);
}

/// Digits are no dots.
proof fn lemma_digits_hold_no_dot(s: Seq<char>)
    requires
        all_digits(s),
    ensures
        forall|j: int| 0 <= j < s.len() ==> s[j] != '.',
{
    assert forall|j: int| 0 <= j < s.len() implies s[j] != '.' by {
        assert(is_digit(s[j]));
    }
}

/// Reads one octet.
fn parse_octet(chars: &[char]) -> (r: Option<u8>)
    ensures
        r == octet_value(chars@),
{
    match parse_canonical(chars, 255) {
        Some(n) => Some(n as u8),
        None => None,
    }
}

/// Makes an address of four octets.
fn compose(a: u8, b: u8, c: u8, d: u8) -> (ip: u32)
    ensures
        ip == address_of(a, b, c, d),
{
    (a as u32) * 0x100_0000 + (b as u32) * 0x1_0000 + (c as u32) * 0x100 + d as u32
}

/// Reads an address in dotted text, given as characters; nothing where the
/// text is not valid.
pub fn parse_ipv4(chars: &[char]) -> (r: Option<u32>)
    ensures
        r == ipv4_value(chars@),
{
    let parts = split_chars(chars, '.');
    assert(views(parts@).len() == parts@.len());
    if parts.len() != 4 {
        return None;
    }
    assert(views(parts@)[0] == parts@[0]@);
    assert(views(parts@)[1] == parts@[1]@);
    assert(views(parts@)[2] == parts@[2]@);
    assert(views(parts@)[3] == parts@[3]@);
    let a = parse_octet(parts[0].as_slice());
    let b = parse_octet(parts[1].as_slice());
    let c = parse_octet(parts[2].as_slice());
    let d = parse_octet(parts[3].as_slice());
    match (a, b, c, d) {
        (Some(a), Some(b), Some(c), Some(d)) => Some(compose(a, b, c, d)),
        _ => None,
    }
}

/// Reads an address in dotted text, as in `"192.168.1.100"`.
///
/// Fails with `InvalidParameter` exactly when the text is not four octets
/// with dots between them, each a number up to 255 without sign or leading
/// zeros.
pub fn ip_str_to_int(s: &str) -> (r: Result<u32, ErrorCode>)
    ensures
        ipv4_value(s@) is Some ==> r == Ok::<u32, ErrorCode>(ipv4_value(s@)->0),
        ipv4_value(s@) is None ==> r == Err::<u32, ErrorCode>(ErrorCode::InvalidParameter),
{
    let chars = to_chars(s);
    match parse_ipv4(chars.as_slice()) {
        Some(ip) => Ok(ip),
        None => Err(ErrorCode::InvalidParameter),
    }
}

/// Writes an address as dotted text.
pub fn ip_int_to_str(ip: u32) -> (s: String)
    ensures
        s@ == ipv4_text(ip),
        ipv4_value(s@) == Some(ip),
{
    proof {
        reveal_strlit(".");
        lemma_value_of_text(ip);
    }
    let mut s = String::new();
    push_decimal(&mut s, (ip / 0x100_0000) as u64);
    s.append(".");
    push_decimal(&mut s, ((ip / 0x1_0000) % 256) as u64);
    s.append(".");
    push_decimal(&mut s, ((ip / 0x100) % 256) as u64);
    s.append(".");
    push_decimal(&mut s, (ip % 256) as u64);
    assert("."@ =~= seq!['.']);
    assert(s@ =~= ipv4_text(ip));
    s
}

impl Ipv4Address {
    /// The address with the four octets given, the first being the most
    /// significant.
    pub fn new(a: u8, b: u8, c: u8, d: u8) -> (ip: Ipv4Address)
        ensures
            ip.bits == address_of(a, b, c, d),
    {
        Ipv4Address { bits: compose(a, b, c, d) }
    }

    /// The four octets, the most significant first.
    pub fn octets(&self) -> (o: [u8; 4])
        ensures
            o[0] == octet(self.bits, 0),
            o[1] == octet(self.bits, 1),
            o[2] == octet(self.bits, 2),
            o[3] == octet(self.bits, 3),
    {
        let ip = self.bits;
        [
            (ip / 0x100_0000) as u8,
            ((ip / 0x1_0000) % 256) as u8,
            ((ip / 0x100) % 256) as u8,
            (ip % 256) as u8,
        ]
    }

    /// Reads an address in dotted text; nothing where the text is not valid.
    pub fn parse(s: &str) -> (r: Option<Ipv4Address>)
        ensures
            ipv4_value(s@) is Some ==> r == Some(Ipv4Address { bits: ipv4_value(s@)->0 }),
            ipv4_value(s@) is None ==> r is None,
    {
        match ip_str_to_int(s) {
            Ok(bits) => Some(Ipv4Address { bits }),
            Err(_) => None,
        }
    }

    /// The address as dotted text.
    pub fn to_string(&self) -> (s: String)
        ensures
            s@ == ipv4_text(self.bits),
    {
        ip_int_to_str(self.bits)
    }
}

/// The 32-bit number of an address.
pub fn ipv4_to_u32(ip: Ipv4Address) -> (bits: u32)
    ensures
        bits == ip.bits,
{
    ip.bits
}

/// The address that a 32-bit number stands for.
pub fn u32_to_ipv4(ip: u32) -> (address: Ipv4Address)
    ensures
        address.bits == ip,
{
    Ipv4Address { bits: ip }
}

/// Tells whether the first octet is one that private networks start with:
/// 10, 172 or 192. Only the first octet is looked at.
pub fn is_private(ip: Ipv4Address) -> (b: bool)
    ensures
        b == (octet(ip.bits, 0) == 10 || octet(ip.bits, 0) == 172 || octet(ip.bits, 0) == 192),
{
    let first = ip.octets()[0];
    first == 10 || first == 172 || first == 192
}

/// Tells whether the address is a loopback address: one in 127.0.0.0/8.
pub fn is_loopback(ip: Ipv4Address) -> (b: bool)
    ensures
        b == (octet(ip.bits, 0) == 127),
{
    ip.octets()[0] == 127
}

/// Tells whether the address is a multicast address: one in 224.0.0.0/4.
pub fn is_multicast(ip: Ipv4Address) -> (b: bool)
    ensures
        b == (224 <= octet(ip.bits, 0) <= 239),
{
    let first = ip.octets()[0];
    first >= 224 && first <= 239
}

} // verus!
