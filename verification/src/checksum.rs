//! The 16-bit one's-complement Internet checksum.
//!
//! A byte span is read as big-endian 16-bit words; a trailing odd byte is the
//! high byte of a last word whose low byte is zero. The words are added with
//! end-around carry and the sum is complemented.

use crate::bytes::{be16, be32, overlay};
use crate::error::ErrorCode;
use vstd::prelude::*;

verus! {

/// The `k`-th 16-bit word of `s`, zero past the end.
pub open spec fn word_at(s: Seq<u8>, k: int) -> nat {
    if 0 <= k && 2 * k + 1 < s.len() {
        (s[2 * k] as nat) * 256 + s[2 * k + 1] as nat
    } else if 0 <= k && 2 * k < s.len() {
        (s[2 * k] as nat) * 256
    } else {
        0
    }
}

/// How many 16-bit words `s` holds, a trailing odd byte counted as one.
pub open spec fn word_count(s: Seq<u8>) -> nat {
    ((s.len() + 1) / 2) as nat
}

/// The sum of the first `n` words of `s`, without any carry folded in.
pub open spec fn partial_sum(s: Seq<u8>, n: nat) -> nat
    decreases n,
{
    if n == 0 {
        0
    } else {
        partial_sum(s, (n - 1) as nat) + word_at(s, n - 1)
    }
}

/// The sum of all words of `s`.
pub open spec fn word_sum(s: Seq<u8>) -> nat {
    partial_sum(s, word_count(s))
}

/// The value that end-around carry folding brings `n` to: zero stays zero,
/// anything else lands in `1..=0xFFFF`, congruent to `n` modulo `0xFFFF`.
pub open spec fn fold16(n: nat) -> nat {
    if n == 0 {
        0
    } else {
        (((n - 1) % 65535) + 1) as nat
    }
}

/// The Internet checksum of `s`.
pub open spec fn internet_checksum(s: Seq<u8>) -> u16 {
    (0xFFFF - fold16(word_sum(s))) as u16
}

/// The twelve bytes that stand in front of a TCP or UDP segment while its
/// checksum is computed: both addresses, a zero byte, the protocol number and
/// the segment's length.
pub open spec fn pseudo_header(src_ip: u32, dst_ip: u32, protocol: u8, length: u16) -> Seq<u8> {
    be32(src_ip) + be32(dst_ip) + seq![0u8, protocol] + be16(length)
}

/// The checksum of a TCP or UDP segment under its pseudo-header.
pub open spec fn transport_checksum(src_ip: u32, dst_ip: u32, protocol: u8, segment: Seq<u8>) -> u16 {
    internet_checksum(pseudo_header(src_ip, dst_ip, protocol, segment.len() as u16) + segment)
}

/// A fold fits sixteen bits, leaves a 16-bit value alone and is zero only for zero.
pub proof fn lemma_fold16_range(n: nat)
    ensures
        fold16(n) <= 0xFFFF,
        n <= 0xFFFF ==> fold16(n) == n,
        n > 0 ==> fold16(n) >= 1,
{
}

/// Folding may happen before or after a further word is added.
pub proof fn lemma_fold16_add(a: nat, w: nat)
    ensures
        fold16(fold16(a) + w) == fold16(a + w),
{
    if a > 0 {
        let x: int = a - 1;
        let q = x / 65535;
        let r = x % 65535;
        assert(x == 65535 * q + r) by {
            vstd::arithmetic::div_mod::lemma_fundamental_div_mod(x, 65535);
        }
        // fold16(a) + w - 1 == r + w and a + w - 1 == 65535 * q + (r + w)
        assert((65535 * q + (r + w)) % 65535 == (r + w) % 65535) by {
            vstd::arithmetic::div_mod::lemma_mod_multiples_vanish(q, r + w, 65535);
        }
        if fold16(a) + w > 0 {
            assert(fold16(a) + w - 1 == r + w);
            assert(a + w - 1 == 65535 * q + (r + w));
        }
    }
}

/// One round of end-around carry, the upper bits added onto the lower
/// sixteen, leaves the fold alone.
pub proof fn lemma_fold16_carry(n: nat)
    ensures
        fold16(n % 0x1_0000 + n / 0x1_0000) == fold16(n),
{
    let q = n / 0x1_0000;
    let r = n % 0x1_0000;
    if q + r > 0 {
        lemma_fold16_shift(q + r, q);
        assert(n == (q + r) + 65535 * q);
    }
}

/// Adding a multiple of `0xFFFF` to a sum that is not zero leaves its fold alone.
pub proof fn lemma_fold16_shift(a: nat, k: nat)
    requires
        a > 0,
    ensures
        fold16(a + 65535 * k) == fold16(a),
{
    let x: int = a - 1;
    assert((65535 * k + x) % 65535 == x % 65535) by {
        vstd::arithmetic::div_mod::lemma_mod_multiples_vanish(k as int, x, 65535);
    }
    assert(a + 65535 * k - 1 == 65535 * k + x);
}

/// A word's value depends only on its own two bytes.
pub proof fn lemma_partial_sum_agree(a: Seq<u8>, b: Seq<u8>, n: nat)
    requires
        forall|k: int| 0 <= k < n ==> word_at(a, k) == word_at(b, k),
    ensures
        partial_sum(a, n) == partial_sum(b, n),
    decreases n,
{
    if n > 0 {
        lemma_partial_sum_agree(a, b, (n - 1) as nat);
    }
}

/// Past the last word nothing is added.
pub proof fn lemma_partial_sum_saturates(s: Seq<u8>, n: nat)
    requires
        n >= word_count(s),
    ensures
        partial_sum(s, n) == word_sum(s),
    decreases n,
{
    if n > word_count(s) {
        lemma_partial_sum_saturates(s, (n - 1) as nat);
    }
}

/// Writing a 16-bit field at an even offset changes the sum by the difference
/// between the new and the old word.
pub proof fn lemma_partial_sum_overlay(s: Seq<u8>, offset: int, v: u16, n: nat)
    requires
        0 <= offset,
        offset % 2 == 0,
        offset + 2 <= s.len(),
    ensures
        partial_sum(overlay(s, offset, be16(v)), n) + (if offset / 2 < n {
            word_at(s, offset / 2)
        } else {
            0
        }) == partial_sum(s, n) + (if offset / 2 < n {
            v as nat
        } else {
            0
        }),
    decreases n,
{
    let t = overlay(s, offset, be16(v));
    if n > 0 {
        lemma_partial_sum_overlay(s, offset, v, (n - 1) as nat);
        let k: int = n - 1;
        if k == offset / 2 {
            assert(2 * k == offset);
            assert(t[2 * k] == (v / 256) as u8);
            assert(t[2 * k + 1] == (v % 256) as u8);
            assert(word_at(t, k) == v as nat);
        } else {
            assert(word_at(t, k) == word_at(s, k));
        }
    }
}

/// Writing a 16-bit field at an even offset changes the sum of all words by
/// the difference between the new and the old word.
pub proof fn lemma_word_sum_overlay(s: Seq<u8>, offset: int, v: u16)
    requires
        0 <= offset,
        offset % 2 == 0,
        offset + 2 <= s.len(),
    ensures
        word_sum(overlay(s, offset, be16(v))) + word_at(s, offset / 2) == word_sum(s) + v,
{
    let t = overlay(s, offset, be16(v));
    assert(word_count(t) == word_count(s));
    lemma_partial_sum_overlay(s, offset, v, word_count(s));
}

/// The words of a span that follows an even number of bytes add onto the
/// words of those bytes.
pub proof fn lemma_partial_sum_concat(a: Seq<u8>, b: Seq<u8>, n: nat)
    requires
        a.len() % 2 == 0,
    ensures
        partial_sum(a + b, a.len() / 2 + n) == word_sum(a) + partial_sum(b, n),
    decreases n,
{
    let c = a + b;
    let half: nat = a.len() / 2;
    if n == 0 {
        assert forall|k: int| 0 <= k < half implies word_at(c, k) == word_at(a, k) by {
            assert(c[2 * k] == a[2 * k]);
            assert(c[2 * k + 1] == a[2 * k + 1]);
        }
        lemma_partial_sum_agree(c, a, half);
        assert(word_count(a) == half);
    } else {
        lemma_partial_sum_concat(a, b, (n - 1) as nat);
        let k: int = half + n - 1;
        let j: int = n - 1;
        assert(2 * k == a.len() + 2 * j);
        if 2 * j + 1 < b.len() {
            assert(c[2 * k] == b[2 * j]);
            assert(c[2 * k + 1] == b[2 * j + 1]);
        } else if 2 * j < b.len() {
            assert(c[2 * k] == b[2 * j]);
        }
        assert(word_at(c, k) == word_at(b, j));
    }
}

/// The word sum of two spans laid end to end, the first of even length, is
/// the sum of their word sums.
pub proof fn lemma_word_sum_concat(a: Seq<u8>, b: Seq<u8>)
    requires
        a.len() % 2 == 0,
    ensures
        word_sum(a + b) == word_sum(a) + word_sum(b),
{
    lemma_partial_sum_concat(a, b, word_count(b));
    assert(word_count(a + b) == a.len() / 2 + word_count(b));
}

/// A span whose checksum field holds the checksum of the span with that field
/// zeroed passes verification: its own checksum is zero.
pub proof fn lemma_embedded_checksum_verifies(s: Seq<u8>, offset: int)
    requires
        0 <= offset,
        offset % 2 == 0,
        offset + 2 <= s.len(),
    ensures
        internet_checksum(
            overlay(s, offset, be16(internet_checksum(overlay(s, offset, be16(0))))),
        ) == 0,
{
    let zeroed = overlay(s, offset, be16(0));
    let c = internet_checksum(zeroed);
    let filled = overlay(s, offset, be16(c));
    lemma_word_sum_overlay(s, offset, 0);
    lemma_word_sum_overlay(s, offset, c);
    let z = word_sum(zeroed);
    assert(word_sum(filled) == z + c);
    lemma_fold16_range(z);
    assert(c == 0xFFFF - fold16(z));
    lemma_sum_with_complement(z);
}

/// A span whose zeroed checksum field is filled in passes verification. The
/// field holds the checksum of the span, or all ones where that checksum is
/// zero.
pub proof fn lemma_filled_field_verifies(s: Seq<u8>, offset: int, v: u16)
    requires
        0 <= offset,
        offset % 2 == 0,
        offset + 2 <= s.len(),
        s[offset] == 0,
        s[offset + 1] == 0,
        v == internet_checksum(s) || (internet_checksum(s) == 0 && v == 0xFFFF),
    ensures
        internet_checksum(overlay(s, offset, be16(v))) == 0,
{
    let z = word_sum(s);
    let k = offset / 2;
    assert(2 * k == offset);
    assert(word_at(s, k) == 0);
    lemma_word_sum_overlay(s, offset, v);
    lemma_fold16_range(z);
    if v == internet_checksum(s) {
        lemma_sum_with_complement(z);
    } else {
        assert(fold16(z) == 0xFFFF);
        lemma_fold16_shift(z, 1);
    }
}

/// A sum and the complement of its fold add up to a sum that folds to `0xFFFF`.
pub proof fn lemma_sum_with_complement(z: nat)
    ensures
        fold16((z + (0xFFFF - fold16(z))) as nat) == 0xFFFF,
{
    if z > 0 {
        let x: int = z - 1;
        let q = x / 65535;
        let r = x % 65535;
        assert(x == 65535 * q + r) by {
            vstd::arithmetic::div_mod::lemma_fundamental_div_mod(x, 65535);
        }
        assert(z + (0xFFFF - fold16(z)) - 1 == 65535 * q + 65534);
        assert((65535 * q + 65534) % 65535 == 65534) by {
            vstd::arithmetic::div_mod::lemma_mod_multiples_vanish(q, 65534, 65535);
        }
    }
}

/// Adds one 16-bit word to a folded sum and folds the carry back in.
fn fold_add(acc: u32, word: u32) -> (r: u32)
    requires
        acc <= 0xFFFF,
        word <= 0xFFFF,
    ensures
        r <= 0xFFFF,
        r == fold16((acc + word) as nat),
{
    let t: u32 = acc + word;
    let low: u32 = t & 0xFFFF;
    let carry: u32 = t >> 16;
    assert(low == t % 0x1_0000 && carry == t / 0x1_0000) by (bit_vector)
        requires
            low == t & 0xFFFF,
            carry == t >> 16,
    ;
    low + carry
}

/// Folds the words of `data` into the folded sum `start`.
fn accumulate(start: u32, data: &[u8]) -> (acc: u32)
    requires
        start <= 0xFFFF,
    ensures
        acc <= 0xFFFF,
        acc == fold16(start as nat + word_sum(data@)),
{
    let len = data.len();
    let mut acc: u32 = start;
    let mut i: usize = 0;
    proof {
        lemma_fold16_range(start as nat);
    }
    while len - i >= 2
        invariant
            len == data@.len(),
            i <= len,
            i % 2 == 0,
            acc <= 0xFFFF,
            acc == fold16(start as nat + partial_sum(data@, (i / 2) as nat)),
        decreases len - i,
    {
        let word: u32 = (data[i] as u32) * 256 + data[i + 1] as u32;
        proof {
            let k: int = (i / 2) as int;
            assert(2 * k == i);
            assert(word == word_at(data@, k));
            assert(partial_sum(data@, (k + 1) as nat) == partial_sum(data@, k as nat) + word_at(
                data@,
                k,
            ));
            lemma_fold16_add(start as nat + partial_sum(data@, k as nat), word as nat);
        }
        acc = fold_add(acc, word);
        i = i + 2;
    }
    if i < len {
        let word: u32 = (data[i] as u32) * 256;
        proof {
            let k: int = (i / 2) as int;
            assert(2 * k == i);
            assert(word == word_at(data@, k));
            assert(word_count(data@) == k + 1);
            assert(partial_sum(data@, (k + 1) as nat) == partial_sum(data@, k as nat) + word_at(
                data@,
                k,
            ));
            lemma_fold16_add(start as nat + partial_sum(data@, k as nat), word as nat);
        }
        acc = fold_add(acc, word);
    } else {
        assert(word_count(data@) == i / 2);
    }
    acc
}

/// Computes the Internet checksum of `data`.
///
/// The result depends on the bytes alone: equal spans have equal checksums.
pub fn checksum(data: &[u8]) -> (sum: u16)
    ensures
        sum == internet_checksum(data@),
{
    let acc = accumulate(0, data);
    (0xFFFF - acc) as u16
}

/// Tells whether `data`, checksum field included, sums to the all-ones word,
/// which is what a receiver checks.
pub fn verify_checksum(data: &[u8]) -> (ok: bool)
    ensures
        ok == (internet_checksum(data@) == 0),
{
    checksum(data) == 0
}

/// The pseudo-header holds six words: the halves of both addresses, the
/// protocol number and the length.
pub proof fn lemma_pseudo_header_sum(src_ip: u32, dst_ip: u32, protocol: u8, length: u16)
    ensures
        pseudo_header(src_ip, dst_ip, protocol, length).len() == 12,
        word_sum(pseudo_header(src_ip, dst_ip, protocol, length)) == src_ip / 0x1_0000 + src_ip
            % 0x1_0000 + dst_ip / 0x1_0000 + dst_ip % 0x1_0000 + protocol + length,
{
    let p = pseudo_header(src_ip, dst_ip, protocol, length);
    assert(p.len() == 12);
    assert(p[0] == (src_ip / 0x100_0000) as u8);
    assert(p[1] == ((src_ip / 0x1_0000) % 256) as u8);
    assert(p[2] == ((src_ip / 256) % 256) as u8);
    assert(p[3] == (src_ip % 256) as u8);
    assert(p[4] == (dst_ip / 0x100_0000) as u8);
    assert(p[5] == ((dst_ip / 0x1_0000) % 256) as u8);
    assert(p[6] == ((dst_ip / 256) % 256) as u8);
    assert(p[7] == (dst_ip % 256) as u8);
    assert(p[8] == 0);
    assert(p[9] == protocol);
    assert(p[10] == (length / 256) as u8);
    assert(p[11] == (length % 256) as u8);
    lemma_halves(src_ip);
    lemma_halves(dst_ip);
    assert(word_at(p, 0) == (src_ip / 0x1_0000) as nat);
    assert(word_at(p, 1) == (src_ip % 0x1_0000) as nat);
    assert(word_at(p, 2) == (dst_ip / 0x1_0000) as nat);
    assert(word_at(p, 3) == (dst_ip % 0x1_0000) as nat);
    assert(word_at(p, 4) == protocol as nat);
    assert(word_at(p, 5) == length as nat);
    assert(word_count(p) == 6);
    assert(partial_sum(p, 0) == 0);
    assert(partial_sum(p, 1) == partial_sum(p, 0) + word_at(p, 0));
    assert(partial_sum(p, 2) == partial_sum(p, 1) + word_at(p, 1));
    assert(partial_sum(p, 3) == partial_sum(p, 2) + word_at(p, 2));
    assert(partial_sum(p, 4) == partial_sum(p, 3) + word_at(p, 3));
    assert(partial_sum(p, 5) == partial_sum(p, 4) + word_at(p, 4));
    assert(partial_sum(p, 6) == partial_sum(p, 5) + word_at(p, 5));
}

/// The two upper bytes of a 32-bit value make its upper half, the two lower
/// bytes its lower half.
proof fn lemma_halves(v: u32)
    ensures
        (v / 0x100_0000) * 256 + (v / 0x1_0000) % 256 == v / 0x1_0000,
        ((v / 256) % 256) * 256 + v % 256 == v % 0x1_0000,
        v / 0x100_0000 < 256,
{
    assert((v / 0x100_0000) * 256 + (v / 0x1_0000) % 256 == v / 0x1_0000) by (bit_vector);
    assert(((v / 256) % 256) * 256 + v % 256 == v % 0x1_0000) by (bit_vector);
    assert(v / 0x100_0000 < 256) by (bit_vector);
}

/// Folds the words of the pseudo-header into a sum.
fn pseudo_header_sum(src_ip: u32, dst_ip: u32, protocol: u8, length: u16) -> (acc: u32)
    ensures
        acc <= 0xFFFF,
        acc == fold16(word_sum(pseudo_header(src_ip, dst_ip, protocol, length))),
{
    let a0 = fold_add(0, src_ip / 0x1_0000);
    let a1 = fold_add(a0, src_ip % 0x1_0000);
    let a2 = fold_add(a1, dst_ip / 0x1_0000);
    let a3 = fold_add(a2, dst_ip % 0x1_0000);
    let a4 = fold_add(a3, protocol as u32);
    let a5 = fold_add(a4, length as u32);
    proof {
        let w0 = (src_ip / 0x1_0000) as nat;
        let w1 = (src_ip % 0x1_0000) as nat;
        let w2 = (dst_ip / 0x1_0000) as nat;
        let w3 = (dst_ip % 0x1_0000) as nat;
        let w4 = protocol as nat;
        let w5 = length as nat;
        lemma_pseudo_header_sum(src_ip, dst_ip, protocol, length);
        lemma_fold16_add(w0, w1);
        lemma_fold16_add(w0 + w1, w2);
        lemma_fold16_add(w0 + w1 + w2, w3);
        lemma_fold16_add(w0 + w1 + w2 + w3, w4);
        lemma_fold16_add(w0 + w1 + w2 + w3 + w4, w5);
    }
    a5
}

/// Computes the checksum of a TCP or UDP segment under its pseudo-header.
///
/// Fails with `PacketTooLarge` exactly when the segment's length does not fit
/// the pseudo-header's 16-bit length field.
pub fn pseudo_header_checksum(src_ip: u32, dst_ip: u32, protocol: u8, segment: &[u8]) -> (r: Result<
    u16,
    ErrorCode,
>)
    ensures
        segment@.len() <= 0xFFFF ==> r == Ok::<u16, ErrorCode>(
            transport_checksum(src_ip, dst_ip, protocol, segment@),
        ),
        segment@.len() > 0xFFFF ==> r == Err::<u16, ErrorCode>(ErrorCode::PacketTooLarge),
{
    if segment.len() > 0xFFFF {
        return Err(ErrorCode::PacketTooLarge);
    }
    let length: u16 = segment.len() as u16;
    let head = pseudo_header_sum(src_ip, dst_ip, protocol, length);
    let acc = accumulate(head, segment);
    proof {
        let p = pseudo_header(src_ip, dst_ip, protocol, length);
        assert(p.len() == 12);
        lemma_word_sum_concat(p, segment@);
        lemma_fold16_add(word_sum(p), word_sum(segment@));
    }
    Ok((0xFFFF - acc) as u16)
}

} // verus!
