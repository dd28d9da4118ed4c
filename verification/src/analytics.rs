//! Counters over a stream of probes: how many packets were lost, and how many
//! bytes went by within a sliding window of time.

use crate::clock::micros_since;
use std::collections::VecDeque;
use std::time::Instant;
use vstd::prelude::*;

verus! {

/// What is left of `samples` to make room for one more under `limit`: the
/// oldest sample goes where there are as many as the limit already.
pub open spec fn make_room<T>(samples: Seq<T>, limit: usize) -> Seq<T> {
    if samples.len() >= limit && samples.len() > 0 {
        samples.skip(1)
    } else {
        samples
    }
}

/// The last samples of a stream, at most as many as a limit, oldest first.
pub struct SampleWindow<T> {
    samples: VecDeque<T>,
    max_samples: usize,
}

impl<T> SampleWindow<T> {
    /// The samples kept, oldest first.
    pub closed spec fn samples(&self) -> Seq<T> {
        self.samples@
    }

    /// How many samples are kept at most.
    pub closed spec fn limit(&self) -> usize {
        self.max_samples
    }

    /// A window without samples that keeps up to `max_samples`.
    pub fn new(max_samples: usize) -> (window: SampleWindow<T>)
        ensures
            window.samples() == Seq::<T>::empty(),
            window.limit() == max_samples,
    {
        SampleWindow { samples: VecDeque::new(), max_samples }
    }

    /// Takes one more sample in. Where the window holds as many as its limit,
    /// the oldest goes first; a window with a limit of zero keeps the last
    /// sample only.
    pub fn add_sample(&mut self, sample: T)
        ensures
            final(self).limit() == old(self).limit(),
            final(self).samples() == make_room(old(self).samples(), old(self).limit()).push(
                sample,
            ),
    {
        if self.samples.len() >= self.max_samples {
            let _ = self.samples.pop_front();
        }
        self.samples.push_back(sample);
    }

    /// How many samples are kept.
    pub fn len(&self) -> (n: usize)
        ensures
            n == self.samples().len(),
    {
        self.samples.len()
    }

    /// The sample at `index`, the oldest being the first; nothing past the
    /// last.
    pub fn get(&self, index: usize) -> (sample: Option<&T>)
        ensures
            index < self.samples().len() ==> sample == Some(&self.samples()[index as int]),
            index >= self.samples().len() ==> sample is None,
    {
        if index < self.samples.len() {
            Some(&self.samples[index])
        } else {
            None
        }
    }
}

/// Counts packets sent and packets received.
#[derive(Debug, Clone, Copy)]
pub struct PacketLossDetector {
    sent: u64,
    received: u64,
}

impl PacketLossDetector {
    /// How many packets were recorded as sent.
    pub closed spec fn spec_sent(&self) -> u64 {
        self.sent
    }

    /// How many packets were recorded as received.
    pub closed spec fn spec_received(&self) -> u64 {
        self.received
    }

    /// How many packets are lost: those sent and not received, none where
    /// more were received than sent.
    pub open spec fn spec_lost(&self) -> u64 {
        if self.spec_sent() >= self.spec_received() {
            (self.spec_sent() - self.spec_received()) as u64
        } else {
            0
        }
    }

    /// A detector that has seen nothing.
    pub fn new() -> (d: PacketLossDetector)
        ensures
            d.spec_sent() == 0,
            d.spec_received() == 0,
    {
        PacketLossDetector { sent: 0, received: 0 }
    }

    /// Records `count` more packets as sent. The total stays within 64 bits.
    pub fn record_sent(&mut self, count: u64)
        requires
            old(self).spec_sent() + count <= u64::MAX,
        ensures
            final(self).spec_sent() == old(self).spec_sent() + count,
            final(self).spec_received() == old(self).spec_received(),
    {
        self.sent = self.sent + count;
    }

    /// Records `count` more packets as received. The total stays within 64
    /// bits.
    pub fn record_received(&mut self, count: u64)
        requires
            old(self).spec_received() + count <= u64::MAX,
        ensures
            final(self).spec_received() == old(self).spec_received() + count,
            final(self).spec_sent() == old(self).spec_sent(),
    {
        self.received = self.received + count;
    }

    /// Forgets everything.
    pub fn reset(&mut self)
        ensures
            final(self).spec_sent() == 0,
            final(self).spec_received() == 0,
    {
        self.sent = 0;
        self.received = 0;
    }

    /// How many packets were recorded as sent.
    pub fn sent(&self) -> (n: u64)
        ensures
            n == self.spec_sent(),
    {
        self.sent
    }

    /// How many packets were recorded as received.
    pub fn received(&self) -> (n: u64)
        ensures
            n == self.spec_received(),
    {
        self.received
    }

    /// How many packets are lost.
    pub fn lost(&self) -> (n: u64)
        ensures
            n == self.spec_lost(),
    {
        if self.sent >= self.received {
            self.sent - self.received
        } else {
            0
        }
    }
}

impl Default for PacketLossDetector {
    fn default() -> (d: PacketLossDetector)
        ensures
            d.spec_sent() == 0,
            d.spec_received() == 0,
    {
        PacketLossDetector::new()
    }
}

/// So many bytes, seen at such a time, in microseconds of the analyzer's
/// clock.
#[derive(Debug, Clone, Copy, PartialEq, Eq, Structural)]
pub struct Measurement {
    pub at_us: u64,
    pub bytes: u64,
}

/// How many measurements at the front of `history` were taken before
/// `cutoff`.
pub open spec fn stale_count(history: Seq<Measurement>, cutoff: u64) -> nat
    decreases history.len(),
{
    if history.len() > 0 && history[0].at_us < cutoff {
        1 + stale_count(history.skip(1), cutoff)
    } else {
        0
    }
}

/// The time before which a measurement is stale: a window's length before
/// `now`, the clock's start where the window is longer than the clock has
/// run.
pub open spec fn cutoff_at(now_us: u64, window_us: u64) -> u64 {
    if now_us >= window_us {
        (now_us - window_us) as u64
    } else {
        0
    }
}

/// The history after a measurement at `now_us`: the measurement is added at
/// the back, and the measurements at the front that are older than the
/// window are dropped, up to the first one that is not.
pub open spec fn recorded(
    history: Seq<Measurement>,
    window_us: u64,
    now_us: u64,
    bytes: u64,
) -> Seq<Measurement> {
    let added = history.push(Measurement { at_us: now_us, bytes });
    added.skip(stale_count(added, cutoff_at(now_us, window_us)) as int)
}

/// The bytes of all measurements together.
pub open spec fn bytes_sum(history: Seq<Measurement>) -> nat
    decreases history.len(),
{
    if history.len() == 0 {
        0
    } else {
        bytes_sum(history.drop_last()) + history.last().bytes as nat
    }
}

/// The stale measurements at the front are counted up to the first that is
/// not stale.
pub proof fn lemma_stale_count_is(history: Seq<Measurement>, cutoff: u64, n: int)
    requires
        0 <= n <= history.len(),
        forall|j: int| 0 <= j < n ==> history[j].at_us < cutoff,
        n < history.len() ==> history[n].at_us >= cutoff,
    ensures
        stale_count(history, cutoff) == n,
    decreases n,
{
    if n > 0 {
        let t = history.skip(1);
        assert forall|j: int| 0 <= j < n - 1 implies t[j].at_us < cutoff by {
            assert(t[j] == history[j + 1]);
        }
        if n - 1 < t.len() {
            assert(t[n - 1] == history[n]);
        }
        lemma_stale_count_is(t, cutoff, n - 1);
    }
}

/// Keeps the bytes seen within a window of time, to tell the bandwidth.
pub struct BandwidthAnalyzer {
    bytes_history: VecDeque<Measurement>,
    window_us: u64,
    started: Instant,
}

impl BandwidthAnalyzer {
    /// The measurements kept, oldest first.
    pub closed spec fn history(&self) -> Seq<Measurement> {
        self.bytes_history@
    }

    /// The length of the window, in microseconds.
    pub closed spec fn window(&self) -> u64 {
        self.window_us
    }

    /// An analyzer with a window of `window_us` microseconds and no
    /// measurement. Its clock starts now.
    pub fn new(window_us: u64) -> (analyzer: BandwidthAnalyzer)
        ensures
            analyzer.history() == Seq::<Measurement>::empty(),
            analyzer.window() == window_us,
    {
        BandwidthAnalyzer { bytes_history: VecDeque::new(), window_us, started: Instant::now() }
    }

    /// Records `bytes` as seen now, by the analyzer's clock.
    pub fn add_measurement(&mut self, bytes: u64)
        ensures
            final(self).window() == old(self).window(),
            exists|now_us: u64|
                final(self).history() == recorded(
                    old(self).history(),
                    old(self).window(),
                    now_us,
                    bytes,
                ),
    {
        let now_us = micros_since(&self.started);
        self.add_measurement_at(now_us, bytes);
    }

    /// Records `bytes` as seen at `now_us`, and drops the measurements at the
    /// front that are older than the window.
    pub fn add_measurement_at(&mut self, now_us: u64, bytes: u64)
        ensures
            final(self).window() == old(self).window(),
            final(self).history() == recorded(
                old(self).history(),
                old(self).window(),
                now_us,
                bytes,
            ),
    {
        self.bytes_history.push_back(Measurement { at_us: now_us, bytes });
        let cutoff: u64 = if now_us >= self.window_us {
            now_us - self.window_us
        } else {
            0
        };
        let ghost added = self.bytes_history@;
        let ghost mut dropped: int = 0;
        assert(added.skip(0) =~= added);
        while self.bytes_history.len() > 0 && self.bytes_history[0].at_us < cutoff
            invariant
                0 <= dropped <= added.len(),
                self.bytes_history@ == added.skip(dropped),
                forall|j: int| 0 <= j < dropped ==> added[j].at_us < cutoff,
                self.window_us == old(self).window_us,
            decreases self.bytes_history@.len(),
        {
            assert(self.bytes_history@[0] == added[dropped]);
            self.bytes_history.pop_front();
            proof {
                assert(added.skip(dropped).skip(1) =~= added.skip(dropped + 1));
                dropped = dropped + 1;
            }
        }
        proof {
            if dropped < added.len() {
                assert(self.bytes_history@[0] == added[dropped]);
            }
            lemma_stale_count_is(added, cutoff, dropped);
        }
    }

    /// How many measurements are kept.
    pub fn sample_count(&self) -> (n: usize)
        ensures
            n == self.history().len(),
    {
        self.bytes_history.len()
    }

    /// The bytes of all measurements kept.
    pub fn total_bytes(&self) -> (total: u128)
        ensures
            total == bytes_sum(self.history()),
    {
        let n = self.bytes_history.len();
        let mut total: u128 = 0;
        let mut i: usize = 0;
        assert(self.bytes_history@.take(0) =~= Seq::<Measurement>::empty());
        while i < n
            invariant
                i <= n,
                n == self.bytes_history@.len(),
                total == bytes_sum(self.bytes_history@.take(i as int)),
                total <= i * 0xFFFF_FFFF_FFFF_FFFF,
            decreases n - i,
        {
            let bytes = self.bytes_history[i].bytes;
            proof {
                let t = self.bytes_history@.take(i + 1);
                assert(t.drop_last() =~= self.bytes_history@.take(i as int));
                assert(t.last() == self.bytes_history@[i as int]);
                assert((i + 1) * 0xFFFF_FFFF_FFFF_FFFF <= 0xFFFF_FFFF_FFFF_FFFF
                    * 0xFFFF_FFFF_FFFF_FFFF) by (nonlinear_arith)
                    requires
                        i + 1 <= 0xFFFF_FFFF_FFFF_FFFF,
                ;
                assert((i + 1) * 0xFFFF_FFFF_FFFF_FFFF == i * 0xFFFF_FFFF_FFFF_FFFF
                    + 0xFFFF_FFFF_FFFF_FFFF) by (nonlinear_arith);
            }
            total = total + bytes as u128;
            i = i + 1;
        }
        assert(self.bytes_history@.take(n as int) =~= self.bytes_history@);
        total
    }

    /// The time between the oldest and the newest measurement kept, in
    /// microseconds; zero where fewer than two are kept or the newest is not
    /// the later one.
    pub fn span_us(&self) -> (span: u64)
        ensures
            span == if self.history().len() >= 2 && self.history().last().at_us
                >= self.history()[0].at_us {
                (self.history().last().at_us - self.history()[0].at_us) as u64
            } else {
                0
            },
    {
        let n = self.bytes_history.len();
        if n < 2 {
            return 0;
        }
        let first = self.bytes_history[0].at_us;
        let last = self.bytes_history[n - 1].at_us;
        if last >= first {
            last - first
        } else {
            0
        }
    }
}

} // verus!
