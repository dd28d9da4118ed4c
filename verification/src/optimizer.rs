//! What the optimizer advises, given what it measured.

use crate::error::NetweaverError;
use vstd::prelude::*;
use vstd::string::StringExecFns;

verus! {

/// The size of the largest packet that the optimizer takes a link to carry.
pub const STANDARD_MTU: usize = 1500;

/// An average latency above this many microseconds calls for advice.
pub const HIGH_LATENCY_US: u64 = 50_000;

/// A packet loss above this many packets in a million calls for advice.
pub const HIGH_LOSS_PPM: u64 = 10_000;

/// More retransmissions than this call for advice.
pub const MANY_RETRANSMITS: u64 = 100;

/// What was measured of the network: the average latency in microseconds,
/// the bandwidth in bytes per second, the packets lost in a million, and the
/// number of retransmissions.
#[derive(Clone, Copy, Debug, PartialEq, Eq, Structural)]
pub struct NetworkMetrics {
    pub avg_latency_us: u64,
    pub bandwidth: u64,
    pub packet_loss_ppm: u64,
    pub retransmits: u64,
}

/// The advice that the measurements call for: one piece each for high
/// latency, high loss and many retransmissions, in this order, and two
/// pieces that are always given.
pub open spec fn advice(metrics: NetworkMetrics) -> Seq<Seq<char>> {
    (if metrics.avg_latency_us > HIGH_LATENCY_US {
        seq!["Enable TCP Fast Open to reduce connection latency"@]
    } else {
        seq![]
    }) + (if metrics.packet_loss_ppm > HIGH_LOSS_PPM {
        seq!["Investigate physical connection - high packet loss detected"@]
    } else {
        seq![]
    }) + (if metrics.retransmits > MANY_RETRANSMITS {
        seq!["Tune TCP congestion control algorithm (recommend BBR)"@]
    } else {
        seq![]
    }) + seq![
        "Enable TCP window scaling for better throughput"@,
        "Configure optimal MTU size for your network"@,
    ]
}

/// The texts of a list of strings.
pub open spec fn texts(list: Seq<String>) -> Seq<Seq<char>> {
    Seq::new(list.len(), |i: int| list[i]@)
}

/// Lists the advice that the measurements call for.
pub fn generate_recommendations(metrics: &NetworkMetrics) -> (recs: Vec<String>)
    ensures
        texts(recs@) == advice(*metrics),
{
    let mut recs: Vec<String> = Vec::new();
    if metrics.avg_latency_us > HIGH_LATENCY_US {
        recs.push(String::from_str("Enable TCP Fast Open to reduce connection latency"));
    }
    if metrics.packet_loss_ppm > HIGH_LOSS_PPM {
        recs.push(String::from_str("Investigate physical connection - high packet loss detected"));
    }
    if metrics.retransmits > MANY_RETRANSMITS {
        recs.push(String::from_str("Tune TCP congestion control algorithm (recommend BBR)"));
    }
    recs.push(String::from_str("Enable TCP window scaling for better throughput"));
    recs.push(String::from_str("Configure optimal MTU size for your network"));
    assert(texts(recs@) =~= advice(*metrics));
    recs
}

/// The size of the largest packet that the link carries now. No link is
/// asked as yet: the answer is `STANDARD_MTU`.
pub fn get_current_mtu() -> (r: Result<usize, NetweaverError>)
    ensures
        r is Ok,
        r->Ok_0 == STANDARD_MTU,
{
    Ok(STANDARD_MTU)
}

/// Whether the link's packet size is worth changing: it is where the best
/// size is another than the one in use.
pub fn mtu_needs_change(current: usize, optimal: usize) -> (b: bool)
    ensures
        b == (current != optimal),
{
    current != optimal
}

/// Sets the link's packet size. Nothing is set as yet: the call succeeds.
pub fn apply_mtu_config(_mtu: usize) -> (r: Result<(), NetweaverError>)
    ensures
        r is Ok,
{
    Ok(())
}

/// Sets TCP parameters, each given by name, value and description. Nothing
/// is set as yet: the call succeeds.
pub fn apply_tcp_config(_params: &[(&str, &str, &str)]) -> (r: Result<(), NetweaverError>)
    ensures
        r is Ok,
{
    Ok(())
}

/// Carries the advice out. Nothing is carried out as yet: the call succeeds.
pub fn apply_optimizations(_recommendations: &[String]) -> (r: Result<(), NetweaverError>)
    ensures
        r is Ok,
{
    Ok(())
}

} // verus!
