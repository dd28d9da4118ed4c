//! Ports: lists and ranges as users write them, and timeouts that follow the
//! round-trip time.

use crate::text::{
    find_from, first_index, parse_unsigned, split, split_chars, to_chars, trim, trim_bounds,
    unsigned_value, views,
};
use vstd::prelude::*;
use vstd::slice::slice_subrange;

verus! {

/// The ports that a scan looks at where the user names none.
pub const COMMON_PORTS: [u16; 16] = [
    21, 22, 23, 25, 53, 80, 110, 143, 443, 445, 3306, 3389, 5432, 5900, 8080, 8443,
];

/// The shortest timeout that `calculate_adaptive_timeout` gives, in
/// microseconds: a tenth of a second.
pub const MIN_TIMEOUT_US: u64 = 100_000;

/// The port that `s` writes, if it writes one.
pub open spec fn port_value(s: Seq<char>) -> Option<u16> {
    match unsigned_value(s, 0xFFFF) {
        Some(n) => Some(n as u16),
        None => None,
    }
}

/// Whether `s` holds a dash.
pub open spec fn has_dash(s: Seq<char>) -> bool {
    first_index(s, '-') < s.len()
}

/// The bounds that a range `s` writes: two ports with one dash between them.
pub open spec fn range_bounds(s: Seq<char>) -> Option<(u16, u16)> {
    let parts = split(s, '-');
    if parts.len() == 2 && port_value(parts[0]) is Some && port_value(parts[1]) is Some {
        Some((port_value(parts[0])->0, port_value(parts[1])->0))
    } else {
        None
    }
}

/// Whether `port` lies in what `range` writes: within the bounds of a range
/// with a dash, or equal to a single port. Text that writes neither holds no
/// port.
pub open spec fn port_in_range(port: u16, range: Seq<char>) -> bool {
    if has_dash(range) {
        match range_bounds(range) {
            Some((start, end)) => start <= port <= end,
            None => false,
        }
    } else {
        port_value(range) == Some(port)
    }
}

/// The ports from `start` to `end`, both included; none where `start` is
/// behind `end`.
pub open spec fn port_span(start: u16, end: u16) -> Seq<u16> {
    if start <= end {
        Seq::new((end - start + 1) as nat, |i: int| (start + i) as u16)
    } else {
        seq![]
    }
}

/// The ports that one entry of a list writes: those of a range, a single
/// port, or none where the entry is neither.
pub open spec fn ports_of_entry(entry: Seq<char>) -> Seq<u16> {
    if has_dash(entry) {
        match range_bounds(entry) {
            Some((start, end)) => port_span(start, end),
            None => seq![],
        }
    } else {
        match port_value(entry) {
            Some(port) => seq![port],
            None => seq![],
        }
    }
}

/// The ports of the first `n` entries, in their order.
pub open spec fn ports_of_entries(entries: Seq<Seq<char>>, n: nat) -> Seq<u16>
    decreases n,
{
    if n == 0 {
        seq![]
    } else {
        ports_of_entries(entries, (n - 1) as nat) + ports_of_entry(trim(entries[n - 1]))
    }
}

/// The ports that a comma-separated list writes: entry by entry, white space
/// around each entry left out, entries that write nothing skipped.
pub open spec fn port_list(s: Seq<char>) -> Seq<u16> {
    ports_of_entries(split(s, ','), split(s, ',').len())
}

/// Reads a port.
fn parse_port(chars: &[char]) -> (r: Option<u16>)
    ensures
        r == port_value(chars@),
{
    match parse_unsigned(chars, 0xFFFF) {
        Some(n) => Some(n as u16),
        None => None,
    }
}

/// Reads the bounds of a range.
fn parse_range(chars: &[char]) -> (r: Option<(u16, u16)>)
    ensures
        r == range_bounds(chars@),
{
    let parts = split_chars(chars, '-');
    assert(views(parts@).len() == parts@.len());
    if parts.len() != 2 {
        return None;
    }
    assert(views(parts@)[0] == parts@[0]@);
    assert(views(parts@)[1] == parts@[1]@);
    match (parse_port(parts[0].as_slice()), parse_port(parts[1].as_slice())) {
        (Some(start), Some(end)) => Some((start, end)),
        _ => None,
    }
}

/// Tells whether `chars` holds a dash.
fn contains_dash(chars: &[char]) -> (b: bool)
    ensures
        b == has_dash(chars@),
{
    assert(chars@.skip(0) =~= chars@);
    find_from(chars, 0, '-') < chars.len()
}

/// Tells whether `port` lies in `range`, which writes one port, as in `"80"`,
/// or two with a dash between them, as in `"8080-8090"`.
pub fn is_port_in_range(port: u16, range: &str) -> (inside: bool)
    ensures
        inside == port_in_range(port, range@),
{
    let chars = to_chars(range);
    if contains_dash(chars.as_slice()) {
        match parse_range(chars.as_slice()) {
            Some((start, end)) => port >= start && port <= end,
            None => false,
        }
    } else {
        match parse_port(chars.as_slice()) {
            Some(single) => port == single,
            None => false,
        }
    }
}

/// Appends the ports from `start` to `end`, both included.
fn push_span(ports: &mut Vec<u16>, start: u16, end: u16)
    ensures
        final(ports)@ == old(ports)@ + port_span(start, end),
{
    if start > end {
        assert(old(ports)@ + port_span(start, end) =~= old(ports)@);
        return ;
    }
    let mut port: u16 = start;
    loop
        invariant
            start <= port <= end,
            ports@ == old(ports)@ + port_span(start, end).take(port - start),
        decreases end - port,
    {
        ports.push(port);
        assert(ports@ =~= old(ports)@ + port_span(start, end).take(port - start + 1));
        if port == end {
            assert(port_span(start, end).take(port - start + 1) =~= port_span(start, end));
            return ;
        }
        port = port + 1;
    }
}

/// Appends the ports that one entry writes.
fn push_entry(ports: &mut Vec<u16>, entry: &[char])
    ensures
        final(ports)@ == old(ports)@ + ports_of_entry(entry@),
{
    if contains_dash(entry) {
        match parse_range(entry) {
            Some((start, end)) => {
                push_span(ports, start, end);
            },
            None => {
                assert(old(ports)@ + ports_of_entry(entry@) =~= old(ports)@);
            },
        }
    } else {
        match parse_port(entry) {
            Some(port) => {
                ports.push(port);
                assert(ports@ =~= old(ports)@ + ports_of_entry(entry@));
            },
            None => {
                assert(old(ports)@ + ports_of_entry(entry@) =~= old(ports)@);
            },
        }
    }
}

/// Reads a comma-separated list of ports and ranges, as in
/// `"80,443,8080-8083"`. The ports come out in the order in which the list
/// names them; entries that write no port or range are skipped.
pub fn parse_port_list(port_str: &str) -> (ports: Vec<u16>)
    ensures
        ports@ == port_list(port_str@),
{
    let chars = to_chars(port_str);
    let entries = split_chars(chars.as_slice(), ',');
    let mut ports: Vec<u16> = Vec::new();
    let n = entries.len();
    let mut i: usize = 0;
    assert(views(entries@).len() == entries@.len());
    while i < n
        invariant
            i <= n,
            n == entries@.len(),
            views(entries@) == split(port_str@, ','),
            ports@ == ports_of_entries(views(entries@), i as nat),
        decreases n - i,
    {
        let entry = entries[i].as_slice();
        let (start, end) = trim_bounds(entry);
        assert(views(entries@)[i as int] == entry@);
        let ghost before = ports@;
        push_entry(&mut ports, slice_subrange(entry, start, end));
        i = i + 1;
    }
    ports
}

/// What `calculate_adaptive_timeout` gives: two and a half times the
/// round-trip time, rounded down, held between `MIN_TIMEOUT_US` and the
/// largest 64-bit value.
pub open spec fn adaptive_timeout(rtt_avg_us: u64) -> u64 {
    let scaled = rtt_avg_us * 5 / 2;
    if scaled < MIN_TIMEOUT_US {
        MIN_TIMEOUT_US
    } else if scaled > u64::MAX {
        u64::MAX
    } else {
        scaled as u64
    }
}

/// The time to wait for a reply, given the average round-trip time so far,
/// both in microseconds.
pub fn calculate_adaptive_timeout(rtt_avg_us: u64) -> (timeout_us: u64)
    ensures
        timeout_us == adaptive_timeout(rtt_avg_us),
        timeout_us >= MIN_TIMEOUT_US,
{
    let scaled: u128 = rtt_avg_us as u128 * 5 / 2;
    if scaled < MIN_TIMEOUT_US as u128 {
        MIN_TIMEOUT_US
    } else if scaled > u64::MAX as u128 {
        u64::MAX
    } else {
        scaled as u64
    }
}

} // verus!
