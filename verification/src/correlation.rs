//! The table of probes that wait for their replies.
//!
//! A probe is known by the protocol, the remote address and a pair of
//! numbers: identifier and sequence number for an ICMP echo, local and remote
//! port for TCP and UDP. The table is bounded and forgets probes that have
//! waited longer than its timeout, so probes that are never answered do not
//! pile up.

use crate::error::ErrorCode;
use crate::packet::{Packet, Protocol};
use crate::parser::{
    echo_identifier, echo_identifier_of, echo_sequence, echo_sequence_of, fields_of, message_type,
    message_type_of, packet_validate,
};
use vstd::prelude::*;

verus! {

/// The type of an ICMP echo request.
pub const ECHO_REQUEST: u8 = 8;

/// The type of an ICMP echo reply.
pub const ECHO_REPLY: u8 = 0;

/// What a probe and its reply have in common.
#[derive(Clone, Copy, Debug, PartialEq, Eq, Structural)]
pub struct ProbeKey {
    pub protocol: Protocol,
    pub remote_ip: u32,
    /// The identifier of an echo, or the local port.
    pub local_id: u16,
    /// The sequence number of an echo, or the remote port.
    pub remote_id: u16,
}

/// A probe that waits for its reply, and when it was sent, in microseconds.
#[derive(Clone, Copy, Debug, PartialEq, Eq, Structural)]
pub struct Pending {
    pub key: ProbeKey,
    pub sent_at: u64,
}

/// The key under which the packet in `s` waits for a reply: that of an echo
/// request, a TCP segment or a UDP datagram; nothing for any other packet.
pub open spec fn probe_key_of(s: Seq<u8>) -> Option<ProbeKey> {
    let f = fields_of(s);
    match f.protocol {
        Protocol::ICMP => if message_type_of(s) == ECHO_REQUEST {
            Some(
                ProbeKey {
                    protocol: Protocol::ICMP,
                    remote_ip: f.dst_ip,
                    local_id: echo_identifier_of(s),
                    remote_id: echo_sequence_of(s),
                },
            )
        } else {
            None
        },
        Protocol::TCP | Protocol::UDP => Some(
            ProbeKey {
                protocol: f.protocol,
                remote_ip: f.dst_ip,
                local_id: f.src_port,
                remote_id: f.dst_port,
            },
        ),
        Protocol::OTHER => None,
    }
}

/// The key of the probe that the packet in `s` answers: an echo reply answers
/// the echo request with its identifier and sequence number, a TCP segment or
/// a UDP datagram the probe that went the other way between the same ports.
pub open spec fn reply_key_of(s: Seq<u8>) -> Option<ProbeKey> {
    let f = fields_of(s);
    match f.protocol {
        Protocol::ICMP => if message_type_of(s) == ECHO_REPLY {
            Some(
                ProbeKey {
                    protocol: Protocol::ICMP,
                    remote_ip: f.src_ip,
                    local_id: echo_identifier_of(s),
                    remote_id: echo_sequence_of(s),
                },
            )
        } else {
            None
        },
        Protocol::TCP | Protocol::UDP => Some(
            ProbeKey {
                protocol: f.protocol,
                remote_ip: f.src_ip,
                local_id: f.dst_port,
                remote_id: f.src_port,
            },
        ),
        Protocol::OTHER => None,
    }
}

/// The key under which a packet waits for its reply; nothing for a packet
/// that is not valid or expects no reply.
pub fn probe_key(packet: &Packet) -> (key: Option<ProbeKey>)
    ensures
        key == if packet.is_valid() {
            probe_key_of(packet.wire())
        } else {
            None
        },
{
    if !packet_validate(packet) {
        return None;
    }
    match packet.protocol {
        Protocol::ICMP => {
            match (message_type(packet), echo_identifier(packet), echo_sequence(packet)) {
                (Some(kind), Some(id), Some(seq)) => {
                    if kind == ECHO_REQUEST {
                        Some(
                            ProbeKey {
                                protocol: Protocol::ICMP,
                                remote_ip: packet.dst_ip,
                                local_id: id,
                                remote_id: seq,
                            },
                        )
                    } else {
                        None
                    }
                },
                _ => None,
            }
        },
        Protocol::TCP => Some(
            ProbeKey {
                protocol: Protocol::TCP,
                remote_ip: packet.dst_ip,
                local_id: packet.src_port,
                remote_id: packet.dst_port,
            },
        ),
        Protocol::UDP => Some(
            ProbeKey {
                protocol: Protocol::UDP,
                remote_ip: packet.dst_ip,
                local_id: packet.src_port,
                remote_id: packet.dst_port,
            },
        ),
        Protocol::OTHER => None,
    }
}

/// The key of the probe that a packet answers; nothing for a packet that is
/// not valid or answers no probe.
pub fn reply_key(packet: &Packet) -> (key: Option<ProbeKey>)
    ensures
        key == if packet.is_valid() {
            reply_key_of(packet.wire())
        } else {
            None
        },
{
    if !packet_validate(packet) {
        return None;
    }
    match packet.protocol {
        Protocol::ICMP => {
            match (message_type(packet), echo_identifier(packet), echo_sequence(packet)) {
                (Some(kind), Some(id), Some(seq)) => {
                    if kind == ECHO_REPLY {
                        Some(
                            ProbeKey {
                                protocol: Protocol::ICMP,
                                remote_ip: packet.src_ip,
                                local_id: id,
                                remote_id: seq,
                            },
                        )
                    } else {
                        None
                    }
                },
                _ => None,
            }
        },
        Protocol::TCP => Some(
            ProbeKey {
                protocol: Protocol::TCP,
                remote_ip: packet.src_ip,
                local_id: packet.dst_port,
                remote_id: packet.src_port,
            },
        ),
        Protocol::UDP => Some(
            ProbeKey {
                protocol: Protocol::UDP,
                remote_ip: packet.src_ip,
                local_id: packet.dst_port,
                remote_id: packet.src_port,
            },
        ),
        Protocol::OTHER => None,
    }
}

/// Whether a probe has waited its timeout out at `now`. A probe from the
/// future has not.
pub open spec fn is_expired(p: Pending, now: u64, timeout: u64) -> bool {
    now >= p.sent_at && now - p.sent_at >= timeout
}

/// The probes that have not expired at `now`, in their order.
pub open spec fn live(entries: Seq<Pending>, now: u64, timeout: u64) -> Seq<Pending>
    decreases entries.len(),
{
    if entries.len() == 0 {
        seq![]
    } else {
        let rest = live(entries.drop_last(), now, timeout);
        if is_expired(entries.last(), now, timeout) {
            rest
        } else {
            rest.push(entries.last())
        }
    }
}

/// Where the probe with `key` stands in `entries`; the length of `entries`
/// where none has that key.
pub open spec fn position(entries: Seq<Pending>, key: ProbeKey) -> int
    decreases entries.len(),
{
    if entries.len() == 0 {
        0
    } else if entries[0].key == key {
        0
    } else {
        1 + position(entries.skip(1), key)
    }
}

/// No two probes have the same key.
pub open spec fn distinct_keys(entries: Seq<Pending>) -> bool {
    forall|i: int, j: int| 0 <= i < j < entries.len() ==> entries[i].key != entries[j].key
}

/// The position of a key lies within the list or at its end; no probe before
/// it has the key, and the probe at it has.
pub proof fn lemma_position(entries: Seq<Pending>, key: ProbeKey)
    ensures
        0 <= position(entries, key) <= entries.len(),
        forall|j: int| 0 <= j < position(entries, key) ==> entries[j].key != key,
        position(entries, key) < entries.len() ==> entries[position(entries, key)].key == key,
    decreases entries.len(),
{
    if entries.len() > 0 && entries[0].key != key {
        let t = entries.skip(1);
        lemma_position(t, key);
        assert forall|j: int| 0 <= j < position(entries, key) implies entries[j].key != key by {
            if j > 0 {
                assert(t[j - 1] == entries[j]);
            }
        }
        if position(entries, key) < entries.len() {
            assert(t[position(t, key)] == entries[position(entries, key)]);
        }
    }
}

/// The position of a key is the first place where a probe has it.
pub proof fn lemma_position_is(entries: Seq<Pending>, key: ProbeKey, i: int)
    requires
        0 <= i <= entries.len(),
        forall|j: int| 0 <= j < i ==> entries[j].key != key,
        i < entries.len() ==> entries[i].key == key,
    ensures
        position(entries, key) == i,
{
    lemma_position(entries, key);
    let p = position(entries, key);
    if p < i {
        assert(entries[p].key == key);
    } else if p > i {
        assert(entries[i].key == key);
    }
}

/// Every live probe is one of the probes and has not expired; no more probes
/// are live than there are.
pub proof fn lemma_live_members(entries: Seq<Pending>, now: u64, timeout: u64)
    ensures
        live(entries, now, timeout).len() <= entries.len(),
        forall|i: int|
            0 <= i < live(entries, now, timeout).len() ==> !is_expired(
                #[trigger] live(entries, now, timeout)[i],
                now,
                timeout,
            ) && exists|j: int|
                0 <= j < entries.len() && entries[j] == live(entries, now, timeout)[i],
    decreases entries.len(),
{
    if entries.len() > 0 {
        let t = entries.drop_last();
        lemma_live_members(t, now, timeout);
        let l = live(entries, now, timeout);
        let lt = live(t, now, timeout);
        assert forall|i: int| 0 <= i < l.len() implies !is_expired(#[trigger] l[i], now, timeout)
            && exists|j: int| 0 <= j < entries.len() && entries[j] == l[i] by {
            if i < lt.len() {
                assert(l[i] == lt[i]);
                let j = choose|j: int| 0 <= j < t.len() && t[j] == lt[i];
                assert(entries[j] == l[i]);
            } else {
                assert(l[i] == entries[entries.len() - 1]);
            }
        }
    }
}

/// Where no probe has expired, all are live.
pub proof fn lemma_live_all(entries: Seq<Pending>, now: u64, timeout: u64)
    requires
        forall|i: int| 0 <= i < entries.len() ==> !is_expired(entries[i], now, timeout),
    ensures
        live(entries, now, timeout) == entries,
    decreases entries.len(),
{
    if entries.len() > 0 {
        let t = entries.drop_last();
        assert forall|i: int| 0 <= i < t.len() implies !is_expired(t[i], now, timeout) by {
            assert(t[i] == entries[i]);
        }
        lemma_live_all(t, now, timeout);
        assert(t.push(entries.last()) =~= entries);
    }
}

/// Forgetting expired probes keeps the keys distinct.
pub proof fn lemma_live_distinct(entries: Seq<Pending>, now: u64, timeout: u64)
    requires
        distinct_keys(entries),
    ensures
        distinct_keys(live(entries, now, timeout)),
    decreases entries.len(),
{
    if entries.len() > 0 {
        let t = entries.drop_last();
        assert(distinct_keys(t)) by {
            assert forall|i: int, j: int| 0 <= i < j < t.len() implies t[i].key != t[j].key by {
                assert(t[i] == entries[i] && t[j] == entries[j]);
            }
        }
        lemma_live_distinct(t, now, timeout);
        lemma_live_members(t, now, timeout);
        let l = live(entries, now, timeout);
        let lt = live(t, now, timeout);
        assert forall|i: int, j: int| 0 <= i < j < l.len() implies l[i].key != l[j].key by {
            if j < lt.len() {
                assert(l[i] == lt[i] && l[j] == lt[j]);
            } else {
                assert(l[j] == entries[entries.len() - 1]);
                assert(l[i] == lt[i]);
                let k = choose|k: int| 0 <= k < t.len() && t[k] == lt[i];
                assert(entries[k] == t[k]);
            }
        }
    }
}

/// The state of a table: how many probes it can hold, after how many
/// microseconds a probe is forgotten, and the probes that wait, oldest
/// registration first.
pub struct TableState {
    pub capacity: nat,
    pub timeout_us: u64,
    pub entries: Seq<Pending>,
}

impl TableState {
    /// A table that holds nothing.
    pub open spec fn empty(capacity: nat, timeout_us: u64) -> TableState {
        TableState { capacity, timeout_us, entries: seq![] }
    }

    /// The table holds no more than its capacity, and no key twice.
    pub open spec fn wf(self) -> bool {
        &&& self.entries.len() <= self.capacity
        &&& distinct_keys(self.entries)
    }

    /// Whether a probe with `key` waits.
    pub open spec fn is_pending(self, key: ProbeKey) -> bool {
        position(self.entries, key) < self.entries.len()
    }

    /// The table after the probes that have expired at `now` are forgotten.
    pub open spec fn evict(self, now: u64) -> TableState {
        TableState { entries: live(self.entries, now, self.timeout_us), ..self }
    }

    /// What `register` answers at `now`: success where the key waits already
    /// or there is room once the expired probes are forgotten,
    /// `AllocationFailure` where the table is full.
    pub open spec fn register_error(self, key: ProbeKey, now: u64) -> ErrorCode {
        let t = self.evict(now);
        if t.is_pending(key) || t.entries.len() < t.capacity {
            ErrorCode::Success
        } else {
            ErrorCode::AllocationFailure
        }
    }

    /// The table after `register` at `now`: the expired probes are forgotten;
    /// a probe that waits under the key is given the new time, a new one is
    /// put behind the others where there is room.
    pub open spec fn register(self, key: ProbeKey, now: u64) -> TableState {
        let t = self.evict(now);
        let i = position(t.entries, key);
        if i < t.entries.len() {
            TableState { entries: t.entries.update(i, Pending { key, sent_at: now }), ..t }
        } else if t.entries.len() < t.capacity {
            TableState { entries: t.entries.push(Pending { key, sent_at: now }), ..t }
        } else {
            t
        }
    }

    /// What `claim` gives out at `now`: the time at which the probe under
    /// `key` was sent, if it waits and has not expired.
    pub open spec fn claimed(self, key: ProbeKey, now: u64) -> Option<u64> {
        let t = self.evict(now);
        let i = position(t.entries, key);
        if i < t.entries.len() {
            Some(t.entries[i].sent_at)
        } else {
            None
        }
    }

    /// The table after `claim` at `now`: the expired probes are forgotten,
    /// and the probe under `key` waits no longer.
    pub open spec fn claim(self, key: ProbeKey, now: u64) -> TableState {
        let t = self.evict(now);
        let i = position(t.entries, key);
        if i < t.entries.len() {
            TableState { entries: t.entries.remove(i), ..t }
        } else {
            t
        }
    }

    /// The table after `cancel`: the probe under `key` waits no longer.
    pub open spec fn cancel(self, key: ProbeKey) -> TableState {
        let i = position(self.entries, key);
        if i < self.entries.len() {
            TableState { entries: self.entries.remove(i), ..self }
        } else {
            self
        }
    }
}

/// Removing a probe keeps the keys distinct, and its key waits no longer.
pub proof fn lemma_remove_distinct(entries: Seq<Pending>, key: ProbeKey)
    requires
        distinct_keys(entries),
        position(entries, key) < entries.len(),
    ensures
        distinct_keys(entries.remove(position(entries, key))),
        position(entries.remove(position(entries, key)), key) == entries.len() - 1,
{
    lemma_position(entries, key);
    let i = position(entries, key);
    let r = entries.remove(i);
    assert forall|a: int, b: int| 0 <= a < b < r.len() implies r[a].key != r[b].key by {
        let a0 = if a < i {
            a
        } else {
            a + 1
        };
        let b0 = if b < i {
            b
        } else {
            b + 1
        };
        assert(r[a] == entries[a0] && r[b] == entries[b0]);
    }
    assert forall|j: int| 0 <= j < r.len() implies r[j].key != key by {
        let j0 = if j < i {
            j
        } else {
            j + 1
        };
        assert(r[j] == entries[j0]);
        if j0 < i {
        } else {
            assert(entries[i].key != entries[j0].key);
        }
    }
    lemma_position_is(r, key, r.len() as int);
}

/// Every operation keeps a consistent table consistent. The table never
/// holds more than its capacity, and never more than before but for the one
/// probe that `register` adds.
pub proof fn lemma_table_operations_keep_wf(t: TableState, key: ProbeKey, now: u64)
    requires
        t.wf(),
    ensures
        t.evict(now).wf(),
        t.register(key, now).wf(),
        t.claim(key, now).wf(),
        t.cancel(key).wf(),
        t.evict(now).entries.len() <= t.entries.len(),
        t.register(key, now).entries.len() <= t.entries.len() + 1,
        t.claim(key, now).entries.len() <= t.entries.len(),
        t.cancel(key).entries.len() <= t.entries.len(),
{
    let e = t.evict(now);
    lemma_live_members(t.entries, now, t.timeout_us);
    lemma_live_distinct(t.entries, now, t.timeout_us);
    lemma_position(e.entries, key);
    lemma_position(t.entries, key);
    let i = position(e.entries, key);
    if i < e.entries.len() {
        let u = e.entries.update(i, Pending { key, sent_at: now });
        assert forall|a: int, b: int| 0 <= a < b < u.len() implies u[a].key != u[b].key by {
            assert(u[a].key == e.entries[a].key);
            assert(u[b].key == e.entries[b].key);
        }
        lemma_remove_distinct(e.entries, key);
    } else if e.entries.len() < e.capacity {
        let u = e.entries.push(Pending { key, sent_at: now });
        assert forall|a: int, b: int| 0 <= a < b < u.len() implies u[a].key != u[b].key by {
            if b < e.entries.len() {
                assert(u[a] == e.entries[a] && u[b] == e.entries[b]);
            } else {
                assert(u[a] == e.entries[a]);
            }
        }
    }
    if position(t.entries, key) < t.entries.len() {
        lemma_remove_distinct(t.entries, key);
    }
}

/// Among distinct keys, a key is found where it stands.
pub proof fn lemma_found_where_it_stands(entries: Seq<Pending>, key: ProbeKey, k: int)
    requires
        distinct_keys(entries),
        0 <= k < entries.len(),
        entries[k].key == key,
    ensures
        position(entries, key) == k,
{
    assert forall|j: int| 0 <= j < k implies entries[j].key != key by {
        assert(entries[j].key != entries[k].key);
    }
    lemma_position_is(entries, key, k);
}

/// A key that does not wait does not wait among the live probes either.
pub proof fn lemma_absent_stays_absent(entries: Seq<Pending>, key: ProbeKey, now: u64, timeout: u64)
    requires
        position(entries, key) >= entries.len(),
    ensures
        position(live(entries, now, timeout), key) == live(entries, now, timeout).len(),
{
    let l = live(entries, now, timeout);
    lemma_position(entries, key);
    lemma_live_members(entries, now, timeout);
    assert forall|i: int| 0 <= i < l.len() implies l[i].key != key by {
        let j = choose|j: int| 0 <= j < entries.len() && entries[j] == l[i];
        assert(entries[j].key != key);
    }
    lemma_position_is(l, key, l.len() as int);
}

/// After `register` has succeeded, the probe stands in the table with the
/// time of its registration.
pub proof fn lemma_registered_probe_waits(t: TableState, key: ProbeKey, sent: u64)
    requires
        t.wf(),
        t.register_error(key, sent) == ErrorCode::Success,
    ensures
        t.register(key, sent).wf(),
        position(t.register(key, sent).entries, key) < t.register(key, sent).entries.len(),
        t.register(key, sent).entries[position(t.register(key, sent).entries, key)] == (Pending {
            key,
            sent_at: sent,
        }),
{
    lemma_table_operations_keep_wf(t, key, sent);
    let r = t.register(key, sent);
    let e = t.evict(sent);
    lemma_position(e.entries, key);
    let i = position(e.entries, key);
    let at = if i < e.entries.len() {
        i
    } else {
        e.entries.len() as int
    };
    assert(r.entries[at] == Pending { key, sent_at: sent });
    lemma_found_where_it_stands(r.entries, key, at);
}

/// A probe that was registered is claimed by its reply, with the time of its
/// registration, as long as it has not expired; and it is claimed once only.
pub proof fn lemma_registered_probe_is_claimed(
    t: TableState,
    key: ProbeKey,
    sent: u64,
    received: u64,
)
    requires
        t.wf(),
        t.register_error(key, sent) == ErrorCode::Success,
        !is_expired(Pending { key, sent_at: sent }, received, t.timeout_us),
    ensures
        t.register(key, sent).claimed(key, received) == Some(sent),
        t.register(key, sent).claim(key, received).claimed(key, received) is None,
{
    let r = t.register(key, sent);
    lemma_registered_probe_waits(t, key, sent);
    let at = position(r.entries, key);
    lemma_position(r.entries, key);
    lemma_live_survivor(r.entries, received, r.timeout_us, at);
    let l = live(r.entries, received, r.timeout_us);
    lemma_live_distinct(r.entries, received, r.timeout_us);
    let k = choose|k: int| 0 <= k < l.len() && l[k] == r.entries[at];
    lemma_found_where_it_stands(l, key, k);
    assert(r.claimed(key, received) == Some(sent));
    lemma_remove_distinct(l, key);
    let c = r.claim(key, received);
    assert(c.entries == l.remove(k));
    lemma_absent_stays_absent(c.entries, key, received, c.timeout_us);
}

/// A probe that has not expired is among the live ones.
pub proof fn lemma_live_survivor(entries: Seq<Pending>, now: u64, timeout: u64, at: int)
    requires
        0 <= at < entries.len(),
        !is_expired(entries[at], now, timeout),
    ensures
        exists|k: int|
            0 <= k < live(entries, now, timeout).len() && live(entries, now, timeout)[k]
                == entries[at],
    decreases entries.len(),
{
    let t = entries.drop_last();
    let l = live(entries, now, timeout);
    let lt = live(t, now, timeout);
    if at == entries.len() - 1 {
        assert(l[l.len() - 1] == entries[at]);
    } else {
        assert(t[at] == entries[at]);
        lemma_live_survivor(t, now, timeout, at);
        let k = choose|k: int| 0 <= k < lt.len() && lt[k] == t[at];
        assert(l[k] == lt[k]);
    }
}

/// The table itself.
pub struct CorrelationTable {
    entries: Vec<Pending>,
    capacity: usize,
    timeout_us: u64,
}

impl View for CorrelationTable {
    type V = TableState;

    closed spec fn view(&self) -> TableState {
        TableState {
            capacity: self.capacity as nat,
            timeout_us: self.timeout_us,
            entries: self.entries@,
        }
    }
}

impl CorrelationTable {
    /// The table is consistent.
    pub open spec fn wf(&self) -> bool {
        self@.wf()
    }

    /// An empty table for up to `capacity` probes that are forgotten after
    /// `timeout_us` microseconds.
    pub fn new(capacity: usize, timeout_us: u64) -> (table: CorrelationTable)
        ensures
            table.wf(),
            table@ == TableState::empty(capacity as nat, timeout_us),
    {
        CorrelationTable { entries: Vec::new(), capacity, timeout_us }
    }

    /// How many probes wait.
    pub fn len(&self) -> (n: usize)
        ensures
            n == self@.entries.len(),
    {
        self.entries.len()
    }

    /// How many probes the table can hold.
    pub fn capacity(&self) -> (n: usize)
        ensures
            n == self@.capacity,
    {
        self.capacity
    }

    /// After how many microseconds a probe is forgotten.
    pub fn timeout_us(&self) -> (t: u64)
        ensures
            t == self@.timeout_us,
    {
        self.timeout_us
    }

    /// Finds the probe with `key`.
    fn find(&self, key: ProbeKey) -> (i: usize)
        ensures
            i == position(self@.entries, key),
            i <= self@.entries.len(),
    {
        let n = self.entries.len();
        let mut i: usize = 0;
        while i < n
            invariant
                i <= n,
                n == self.entries@.len(),
                forall|j: int| 0 <= j < i ==> self.entries@[j].key != key,
            decreases n - i,
        {
            if self.entries[i].key == key {
                proof {
                    lemma_position_is(self.entries@, key, i as int);
                }
                return i;
            }
            i = i + 1;
        }
        proof {
            lemma_position_is(self.entries@, key, n as int);
        }
        n
    }

    /// Tells whether a probe with `key` waits.
    pub fn is_pending(&self, key: ProbeKey) -> (b: bool)
        ensures
            b == self@.is_pending(key),
    {
        self.find(key) < self.entries.len()
    }

    /// Forgets the probes that have expired at `now_us`, and says how many
    /// there were.
    pub fn evict_expired(&mut self, now_us: u64) -> (evicted: usize)
        requires
            old(self).wf(),
        ensures
            final(self).wf(),
            final(self)@ == old(self)@.evict(now_us),
            evicted == old(self)@.entries.len() - final(self)@.entries.len(),
    {
        let n = self.entries.len();
        let mut kept: Vec<Pending> = Vec::new();
        let mut i: usize = 0;
        assert(self.entries@.take(0) =~= Seq::<Pending>::empty());
        while i < n
            invariant
                i <= n,
                n == self.entries@.len(),
                kept@ == live(self.entries@.take(i as int), now_us, self.timeout_us),
                kept@.len() <= i,
                self.entries@ == old(self).entries@,
                self.timeout_us == old(self).timeout_us,
                self.capacity == old(self).capacity,
            decreases n - i,
        {
            let p = self.entries[i];
            proof {
                let t = self.entries@.take(i + 1);
                assert(t.drop_last() =~= self.entries@.take(i as int));
                assert(t.last() == p);
            }
            if !(now_us >= p.sent_at && now_us - p.sent_at >= self.timeout_us) {
                kept.push(p);
            }
            i = i + 1;
        }
        proof {
            assert(self.entries@.take(n as int) =~= self.entries@);
            lemma_table_operations_keep_wf(
                old(self)@,
                ProbeKey { protocol: Protocol::OTHER, remote_ip: 0, local_id: 0, remote_id: 0 },
                now_us,
            );
        }
        let evicted = n - kept.len();
        self.entries = kept;
        evicted
    }

    /// Puts a probe into the table at `now_us`, or gives the probe that
    /// waits under the same key the new time.
    ///
    /// Fails with `AllocationFailure` exactly when the key does not wait and
    /// the table is full even without the probes that have expired.
    pub fn register(&mut self, key: ProbeKey, now_us: u64) -> (result: ErrorCode)
        requires
            old(self).wf(),
        ensures
            final(self).wf(),
            result == old(self)@.register_error(key, now_us),
            final(self)@ == old(self)@.register(key, now_us),
    {
        proof {
            lemma_table_operations_keep_wf(old(self)@, key, now_us);
        }
        self.evict_expired(now_us);
        let i = self.find(key);
        if i < self.entries.len() {
            self.entries[i] = Pending { key, sent_at: now_us };
            ErrorCode::Success
        } else if self.entries.len() < self.capacity {
            self.entries.push(Pending { key, sent_at: now_us });
            ErrorCode::Success
        } else {
            ErrorCode::AllocationFailure
        }
    }

    /// Takes the probe under `key` out of the table, if it waits and has not
    /// expired at `now_us`, and gives the time at which it was sent.
    pub fn claim(&mut self, key: ProbeKey, now_us: u64) -> (sent_at: Option<u64>)
        requires
            old(self).wf(),
        ensures
            final(self).wf(),
            sent_at == old(self)@.claimed(key, now_us),
            final(self)@ == old(self)@.claim(key, now_us),
            !final(self)@.is_pending(key),
    {
        proof {
            lemma_table_operations_keep_wf(old(self)@, key, now_us);
            let e = old(self)@.evict(now_us);
            lemma_position(e.entries, key);
            if position(e.entries, key) < e.entries.len() {
                lemma_remove_distinct(e.entries, key);
            }
        }
        self.evict_expired(now_us);
        let i = self.find(key);
        if i < self.entries.len() {
            let p = self.entries.remove(i);
            Some(p.sent_at)
        } else {
            None
        }
    }

    /// Takes the probe under `key` out of the table, and says whether it
    /// waited.
    pub fn cancel(&mut self, key: ProbeKey) -> (was_pending: bool)
        requires
            old(self).wf(),
        ensures
            final(self).wf(),
            was_pending == old(self)@.is_pending(key),
            final(self)@ == old(self)@.cancel(key),
            !final(self)@.is_pending(key),
    {
        proof {
            lemma_table_operations_keep_wf(old(self)@, key, 0);
            lemma_position(old(self)@.entries, key);
            if position(old(self)@.entries, key) < old(self)@.entries.len() {
                lemma_remove_distinct(old(self)@.entries, key);
            }
        }
        let i = self.find(key);
        if i < self.entries.len() {
            self.entries.remove(i);
            true
        } else {
            false
        }
    }

    /// Forgets every probe.
    pub fn clear(&mut self)
        ensures
            final(self).wf(),
            final(self)@ == TableState::empty(old(self)@.capacity, old(self)@.timeout_us),
    {
        self.entries = Vec::new();
    }
}

} // verus!
