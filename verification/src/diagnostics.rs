//! What a route trace concludes about one hop from the probes sent to it.

use crate::utils::ip::Ipv4Address;
use vstd::prelude::*;

verus! {

/// The probes of one hop together: how many were answered, how many were
/// not, and the round-trip times of the answered ones added up, in
/// microseconds.
#[derive(Clone, Copy, Debug, PartialEq, Eq, Structural)]
pub struct HopSummary {
    pub answered: usize,
    pub lost: usize,
    pub total_rtt_us: u128,
}

/// How many of the first `n` probes were answered.
pub open spec fn answered_among(rtts: Seq<Option<u64>>, n: nat) -> nat
    decreases n,
{
    if n == 0 {
        0
    } else {
        answered_among(rtts, (n - 1) as nat) + if rtts[n - 1] is Some {
            1nat
        } else {
            0nat
        }
    }
}

/// The round-trip times of the first `n` probes added up, an unanswered probe
/// counting nothing.
pub open spec fn rtt_sum(rtts: Seq<Option<u64>>, n: nat) -> nat
    decreases n,
{
    if n == 0 {
        0
    } else {
        rtt_sum(rtts, (n - 1) as nat) + match rtts[n - 1] {
            Some(rtt) => rtt as nat,
            None => 0nat,
        }
    }
}

/// Sums up the probes of one hop. Each probe is its round-trip time in
/// microseconds, or nothing where no answer came.
pub fn summarize_hop(rtts: &[Option<u64>]) -> (summary: HopSummary)
    ensures
        summary.answered == answered_among(rtts@, rtts@.len()),
        summary.lost == rtts@.len() - answered_among(rtts@, rtts@.len()),
        summary.total_rtt_us == rtt_sum(rtts@, rtts@.len()),
{
    let n = rtts.len();
    let mut answered: usize = 0;
    let mut total: u128 = 0;
    let mut i: usize = 0;
    while i < n
        invariant
            i <= n,
            n == rtts@.len(),
            answered == answered_among(rtts@, i as nat),
            answered <= i,
            total == rtt_sum(rtts@, i as nat),
            total <= i * 0xFFFF_FFFF_FFFF_FFFF,
        decreases n - i,
    {
        proof {
            assert((i + 1) * 0xFFFF_FFFF_FFFF_FFFF <= 0xFFFF_FFFF_FFFF_FFFF
                * 0xFFFF_FFFF_FFFF_FFFF) by (nonlinear_arith)
                requires
                    i + 1 <= 0xFFFF_FFFF_FFFF_FFFF,
            ;
            assert((i + 1) * 0xFFFF_FFFF_FFFF_FFFF == i * 0xFFFF_FFFF_FFFF_FFFF
                + 0xFFFF_FFFF_FFFF_FFFF) by (nonlinear_arith);
        }
        match rtts[i] {
            Some(rtt) => {
                answered = answered + 1;
                total = total + rtt as u128;
            },
            None => {},
        }
        i = i + 1;
    }
    HopSummary { answered, lost: n - answered, total_rtt_us: total }
}

/// Tells whether a trace has arrived: the hop answered from the target's own
/// address.
pub fn reached_target(hop_ip: Option<Ipv4Address>, target: Ipv4Address) -> (arrived: bool)
    ensures
        arrived == (hop_ip == Some(target)),
{
    match hop_ip {
        Some(ip) => ip.bits == target.bits,
        None => false,
    }
}

} // verus!
