//! Traffic counters of the machine's network interfaces.

use crate::text::{ends_with, has_suffix, same_text};
use vstd::prelude::*;

verus! {

/// The format in which results are written out.
#[derive(Clone, Copy, Debug, PartialEq, Eq, Structural)]
pub enum ExportFormat {
    Json,
    Yaml,
    Html,
}

impl ExportFormat {
    /// The format that a file's name asks for: YAML where the name ends in
    /// `.yaml` or `.yml`, JSON otherwise.
    pub open spec fn spec_for_path(path: Seq<char>) -> ExportFormat {
        if has_suffix(path, ".yaml"@) || has_suffix(path, ".yml"@) {
            ExportFormat::Yaml
        } else {
            ExportFormat::Json
        }
    }

    /// The format that a file's name asks for.
    pub fn for_path(path: &str) -> (format: ExportFormat)
        ensures
            format == ExportFormat::spec_for_path(path@),
    {
        if ends_with(path, ".yaml") || ends_with(path, ".yml") {
            ExportFormat::Yaml
        } else {
            ExportFormat::Json
        }
    }

    /// The format that goes by a name: `yaml` and `yml` are YAML, `html` is
    /// HTML, and every other name is JSON.
    pub open spec fn spec_from_name(name: Seq<char>) -> ExportFormat {
        if name == "yaml"@ || name == "yml"@ {
            ExportFormat::Yaml
        } else if name == "html"@ {
            ExportFormat::Html
        } else {
            ExportFormat::Json
        }
    }

    /// The format that goes by a name.
    pub fn from_name(name: &str) -> (format: ExportFormat)
        ensures
            format == ExportFormat::spec_from_name(name@),
    {
        if same_text(name, "yaml") || same_text(name, "yml") {
            ExportFormat::Yaml
        } else if same_text(name, "html") {
            ExportFormat::Html
        } else {
            ExportFormat::Json
        }
    }
}

/// The traffic of the whole machine at one moment.
#[derive(Debug, Clone, Copy, PartialEq, Eq, Structural)]
pub struct NetworkStats {
    pub bytes_sent: u64,
    pub bytes_recv: u64,
    pub packets_sent: u64,
    pub packets_recv: u64,
    pub errors: u64,
    pub drops: u64,
    pub timestamp: u64,
}

/// The counters of one network interface.
#[derive(Debug, Clone, Copy, PartialEq, Eq, Structural)]
pub struct InterfaceCounters {
    pub transmitted: u64,
    pub received: u64,
    pub packets_transmitted: u64,
    pub packets_received: u64,
    pub errors_on_received: u64,
    pub errors_on_transmitted: u64,
}

/// The bytes that the first `n` interfaces sent.
pub open spec fn sent_sum(interfaces: Seq<InterfaceCounters>, n: nat) -> nat
    decreases n,
{
    if n == 0 {
        0
    } else {
        sent_sum(interfaces, (n - 1) as nat) + interfaces[n - 1].transmitted as nat
    }
}

/// The bytes that the first `n` interfaces received.
pub open spec fn received_sum(interfaces: Seq<InterfaceCounters>, n: nat) -> nat
    decreases n,
{
    if n == 0 {
        0
    } else {
        received_sum(interfaces, (n - 1) as nat) + interfaces[n - 1].received as nat
    }
}

/// The packets that the first `n` interfaces sent.
pub open spec fn packets_sent_sum(interfaces: Seq<InterfaceCounters>, n: nat) -> nat
    decreases n,
{
    if n == 0 {
        0
    } else {
        packets_sent_sum(interfaces, (n - 1) as nat) + interfaces[n - 1].packets_transmitted as nat
    }
}

/// The packets that the first `n` interfaces received.
pub open spec fn packets_received_sum(interfaces: Seq<InterfaceCounters>, n: nat) -> nat
    decreases n,
{
    if n == 0 {
        0
    } else {
        packets_received_sum(interfaces, (n - 1) as nat) + interfaces[n - 1].packets_received as nat
    }
}

/// The errors of the first `n` interfaces, in both directions.
pub open spec fn errors_sum(interfaces: Seq<InterfaceCounters>, n: nat) -> nat
    decreases n,
{
    if n == 0 {
        0
    } else {
        errors_sum(interfaces, (n - 1) as nat) + interfaces[n - 1].errors_on_received as nat
            + interfaces[n - 1].errors_on_transmitted as nat
    }
}

/// Whether the totals over the first `n` interfaces all fit 64 bits.
pub open spec fn totals_fit(interfaces: Seq<InterfaceCounters>, n: nat) -> bool {
    &&& sent_sum(interfaces, n) <= u64::MAX
    &&& received_sum(interfaces, n) <= u64::MAX
    &&& packets_sent_sum(interfaces, n) <= u64::MAX
    &&& packets_received_sum(interfaces, n) <= u64::MAX
    &&& errors_sum(interfaces, n) <= u64::MAX
}

/// The sums only grow with more interfaces.
pub proof fn lemma_sums_grow(interfaces: Seq<InterfaceCounters>, i: nat, n: nat)
    requires
        i <= n,
    ensures
        sent_sum(interfaces, i) <= sent_sum(interfaces, n),
        received_sum(interfaces, i) <= received_sum(interfaces, n),
        packets_sent_sum(interfaces, i) <= packets_sent_sum(interfaces, n),
        packets_received_sum(interfaces, i) <= packets_received_sum(interfaces, n),
        errors_sum(interfaces, i) <= errors_sum(interfaces, n),
    decreases n - i,
{
    if i < n {
        lemma_sums_grow(interfaces, i, (n - 1) as nat);
    }
}

/// Adds up the counters of all interfaces into the statistics of the machine
/// at `timestamp`. Drops are not counted by interfaces and stay zero.
///
/// Returns nothing exactly when one of the totals does not fit 64 bits.
pub fn total_stats(interfaces: &[InterfaceCounters], timestamp: u64) -> (stats: Option<
    NetworkStats,
>)
    ensures
        totals_fit(interfaces@, interfaces@.len()) ==> stats == Some(
            NetworkStats {
                bytes_sent: sent_sum(interfaces@, interfaces@.len()) as u64,
                bytes_recv: received_sum(interfaces@, interfaces@.len()) as u64,
                packets_sent: packets_sent_sum(interfaces@, interfaces@.len()) as u64,
                packets_recv: packets_received_sum(interfaces@, interfaces@.len()) as u64,
                errors: errors_sum(interfaces@, interfaces@.len()) as u64,
                drops: 0,
                timestamp,
            },
        ),
        !totals_fit(interfaces@, interfaces@.len()) ==> stats is None,
{
    let n = interfaces.len();
    let mut sent: u64 = 0;
    let mut received: u64 = 0;
    let mut packets_sent: u64 = 0;
    let mut packets_received: u64 = 0;
    let mut errors: u64 = 0;
    let mut i: usize = 0;
    while i < n
        invariant
            i <= n,
            n == interfaces@.len(),
            sent == sent_sum(interfaces@, i as nat),
            received == received_sum(interfaces@, i as nat),
            packets_sent == packets_sent_sum(interfaces@, i as nat),
            packets_received == packets_received_sum(interfaces@, i as nat),
            errors == errors_sum(interfaces@, i as nat),
        decreases n - i,
    {
        let c = interfaces[i];
        proof {
            lemma_sums_grow(interfaces@, (i + 1) as nat, n as nat);
        }
        if c.transmitted > u64::MAX - sent || c.received > u64::MAX - received
            || c.packets_transmitted > u64::MAX - packets_sent || c.packets_received > u64::MAX
            - packets_received || c.errors_on_received > u64::MAX - errors {
            return None;
        }
        let with_received = errors + c.errors_on_received;
        if c.errors_on_transmitted > u64::MAX - with_received {
            return None;
        }
        sent = sent + c.transmitted;
        received = received + c.received;
        packets_sent = packets_sent + c.packets_transmitted;
        packets_received = packets_received + c.packets_received;
        errors = with_received + c.errors_on_transmitted;
        i = i + 1;
    }
    Some(
        NetworkStats {
            bytes_sent: sent,
            bytes_recv: received,
            packets_sent,
            packets_recv: packets_received,
            errors,
            drops: 0,
            timestamp,
        },
    )
}

} // verus!
