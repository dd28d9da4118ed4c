//! The engine's lifetime, and what the transport does with each probe and each
//! reply.
//!
//! The engine is an object that the caller holds: `init` makes it usable,
//! `cleanup` ends that, and every other operation on an engine that is not
//! initialised fails with `InvalidParameter` and changes nothing.
//!
//! The engine touches no socket. Whoever drives the sockets asks it before
//! sending, tells it how the sending went, and hands it what was received; the
//! engine answers with what to do next.

use crate::clock::micros_since;
use crate::correlation::{
    lemma_table_operations_keep_wf, probe_key, probe_key_of, reply_key, reply_key_of,
    CorrelationTable, ProbeKey, TableState,
};
use crate::error::ErrorCode;
use crate::packet::{Packet, Protocol};
use crate::parser::{fields_of, framed, packet_validate, parse, total_len};
use std::time::Instant;
use vstd::prelude::*;

verus! {

/// How many probes an engine waits for at most, where `init` is not told.
pub const DEFAULT_TABLE_CAPACITY: usize = 1024;

/// After how many microseconds an engine forgets a probe, where `init` is not
/// told: five seconds.
pub const DEFAULT_PROBE_TIMEOUT_US: u64 = 5_000_000;

/// The state of an engine: whether it is initialised, and the probes it
/// waits for.
pub struct EngineState {
    pub initialized: bool,
    pub table: TableState,
}

/// The key of the probe that received bytes answer, if they hold a framed
/// packet that answers one.
pub open spec fn inbound_key(raw: Option<Seq<u8>>) -> Option<ProbeKey> {
    match raw {
        Some(bytes) => if framed(bytes) {
            reply_key_of(bytes.subrange(0, total_len(bytes)))
        } else {
            None
        },
        None => None,
    }
}

impl EngineState {
    /// An engine that is not initialised.
    pub open spec fn idle() -> EngineState {
        EngineState { initialized: false, table: TableState::empty(0, 0) }
    }

    /// An engine as `init` makes it.
    pub open spec fn ready(capacity: nat, timeout_us: u64) -> EngineState {
        EngineState { initialized: true, table: TableState::empty(capacity, timeout_us) }
    }

    /// The state is consistent: the table is, and an engine that is not
    /// initialised waits for nothing.
    pub open spec fn wf(self) -> bool {
        &&& self.table.wf()
        &&& !self.initialized ==> self == EngineState::idle()
    }

    /// What `init_with` answers: `InvalidParameter` for an engine that is
    /// initialised already and for a capacity of zero.
    pub open spec fn init_error(self, capacity: nat) -> ErrorCode {
        if self.initialized || capacity == 0 {
            ErrorCode::InvalidParameter
        } else {
            ErrorCode::Success
        }
    }

    /// The engine after `init_with`.
    pub open spec fn init(self, capacity: nat, timeout_us: u64) -> EngineState {
        if self.init_error(capacity) == ErrorCode::Success {
            EngineState::ready(capacity, timeout_us)
        } else {
            self
        }
    }

    /// What `prepare_send` answers, the checks in this order: the engine is
    /// initialised, the process is privileged, the packet is valid, and a
    /// packet that expects a reply finds room in the table.
    pub open spec fn send_error(self, packet: Packet, privileged: bool, now: u64) -> ErrorCode {
        if !self.initialized {
            ErrorCode::InvalidParameter
        } else if !privileged {
            ErrorCode::PermissionDenied
        } else if !packet.is_valid() {
            ErrorCode::InvalidParameter
        } else {
            match probe_key_of(packet.wire()) {
                Some(key) => self.table.register_error(key, now),
                None => ErrorCode::Success,
            }
        }
    }

    /// The engine after `prepare_send`: a valid packet that expects a reply
    /// is registered, when the engine is initialised and the process
    /// privileged; nothing changes otherwise.
    pub open spec fn send(self, packet: Packet, privileged: bool, now: u64) -> EngineState {
        if self.initialized && privileged && packet.is_valid() {
            match probe_key_of(packet.wire()) {
                Some(key) => EngineState { table: self.table.register(key, now), ..self },
                None => self,
            }
        } else {
            self
        }
    }

    /// What `finish_send` answers: `SocketError` where the operating system
    /// did not take the packet.
    pub open spec fn finish_error(self, sent: bool) -> ErrorCode {
        if !self.initialized {
            ErrorCode::InvalidParameter
        } else if sent {
            ErrorCode::Success
        } else {
            ErrorCode::SocketError
        }
    }

    /// The engine after `finish_send`: the probe of a packet that was not
    /// sent waits no longer.
    pub open spec fn finish(self, packet: Packet, sent: bool) -> EngineState {
        if self.initialized && !sent && packet.is_valid() {
            match probe_key_of(packet.wire()) {
                Some(key) => EngineState { table: self.table.cancel(key), ..self },
                None => self,
            }
        } else {
            self
        }
    }

    /// Whether bytes that arrive at `now` are delivered: they hold a packet
    /// that answers a probe which waits and has not expired.
    pub open spec fn delivers(self, raw: Option<Seq<u8>>, now: u64) -> bool {
        self.initialized && inbound_key(raw) is Some && self.table.claimed(
            inbound_key(raw)->0,
            now,
        ) is Some
    }

    /// The engine after `receive` at `now`: the expired probes are forgotten,
    /// and so is the probe that was answered.
    pub open spec fn received(self, raw: Option<Seq<u8>>, now: u64) -> EngineState {
        if !self.initialized {
            self
        } else if inbound_key(raw) is Some {
            EngineState { table: self.table.claim(inbound_key(raw)->0, now), ..self }
        } else {
            EngineState { table: self.table.evict(now), ..self }
        }
    }
}

/// The bytes that were received, if any were.
pub open spec fn seen_bytes(raw: Option<&[u8]>) -> Option<Seq<u8>> {
    match raw {
        Some(bytes) => Some(bytes@),
        None => None,
    }
}

/// What to do after bytes were received, or none were.
#[derive(Debug)]
pub enum ReceiveStep {
    /// A reply to a probe: hand it to the caller. The probe was sent at
    /// `sent_at_us`.
    Deliver { packet: Packet, sent_at_us: u64 },
    /// Nothing for the caller yet: wait for more, `remaining_us` microseconds
    /// at most.
    Wait { remaining_us: u64 },
    /// Give up with this error: `Timeout` when the deadline has passed.
    Fail { error: ErrorCode },
}

/// Every operation keeps a consistent engine consistent.
pub proof fn lemma_engine_operations_keep_wf(
    s: EngineState,
    capacity: nat,
    timeout_us: u64,
    packet: Packet,
    privileged: bool,
    sent: bool,
    raw: Option<Seq<u8>>,
    now: u64,
)
    requires
        s.wf(),
    ensures
        s.init(capacity, timeout_us).wf(),
        s.send(packet, privileged, now).wf(),
        s.finish(packet, sent).wf(),
        s.received(raw, now).wf(),
        EngineState::idle().wf(),
{
    let any = ProbeKey { protocol: Protocol::OTHER, remote_ip: 0, local_id: 0, remote_id: 0 };
    lemma_table_operations_keep_wf(s.table, any, now);
    match probe_key_of(packet.wire()) {
        Some(key) => {
            lemma_table_operations_keep_wf(s.table, key, now);
        },
        None => {},
    }
    match inbound_key(raw) {
        Some(key) => {
            lemma_table_operations_keep_wf(s.table, key, now);
        },
        None => {},
    }
}

/// An engine that is not initialised refuses every operation with
/// `InvalidParameter`, delivers nothing and stays as it is.
pub proof fn lemma_idle_engine_refuses(
    packet: Packet,
    privileged: bool,
    sent: bool,
    raw: Option<Seq<u8>>,
    now: u64,
)
    ensures
        EngineState::idle().send_error(packet, privileged, now) == ErrorCode::InvalidParameter,
        EngineState::idle().send(packet, privileged, now) == EngineState::idle(),
        EngineState::idle().finish_error(sent) == ErrorCode::InvalidParameter,
        EngineState::idle().finish(packet, sent) == EngineState::idle(),
        !EngineState::idle().delivers(raw, now),
        EngineState::idle().received(raw, now) == EngineState::idle(),
{
}

/// The engine.
pub struct Engine {
    initialized: bool,
    table: CorrelationTable,
    started: Instant,
}

impl View for Engine {
    type V = EngineState;

    closed spec fn view(&self) -> EngineState {
        EngineState { initialized: self.initialized, table: self.table@ }
    }
}

impl Engine {
    /// The engine's state is consistent.
    pub open spec fn wf(&self) -> bool {
        self@.wf()
    }

    /// An engine that is not initialised.
    pub fn new() -> (engine: Engine)
        ensures
            engine.wf(),
            engine@ == EngineState::idle(),
    {
        Engine { initialized: false, table: CorrelationTable::new(0, 0), started: Instant::now() }
    }

    /// Makes the engine usable, with room for `DEFAULT_TABLE_CAPACITY` probes
    /// that are forgotten after `DEFAULT_PROBE_TIMEOUT_US` microseconds.
    ///
    /// Fails with `InvalidParameter`, changing nothing, exactly when the
    /// engine is initialised already.
    pub fn init(&mut self) -> (result: ErrorCode)
        requires
            old(self).wf(),
        ensures
            final(self).wf(),
            result == old(self)@.init_error(DEFAULT_TABLE_CAPACITY as nat),
            final(self)@ == old(self)@.init(
                DEFAULT_TABLE_CAPACITY as nat,
                DEFAULT_PROBE_TIMEOUT_US,
            ),
    {
        self.init_with(DEFAULT_TABLE_CAPACITY, DEFAULT_PROBE_TIMEOUT_US)
    }

    /// Makes the engine usable, with room for `capacity` probes that are
    /// forgotten after `timeout_us` microseconds. The engine's clock starts
    /// anew.
    ///
    /// Fails with `InvalidParameter`, changing nothing, exactly when the
    /// engine is initialised already or the capacity is zero.
    pub fn init_with(&mut self, capacity: usize, timeout_us: u64) -> (result: ErrorCode)
        requires
            old(self).wf(),
        ensures
            final(self).wf(),
            result == old(self)@.init_error(capacity as nat),
            final(self)@ == old(self)@.init(capacity as nat, timeout_us),
    {
        if self.initialized || capacity == 0 {
            return ErrorCode::InvalidParameter;
        }
        self.table = CorrelationTable::new(capacity, timeout_us);
        self.started = Instant::now();
        self.initialized = true;
        ErrorCode::Success
    }

    /// Ends the engine's use: it forgets every probe and is as before `init`.
    pub fn cleanup(&mut self)
        ensures
            final(self).wf(),
            final(self)@ == EngineState::idle(),
    {
        self.table = CorrelationTable::new(0, 0);
        self.initialized = false;
    }

    /// Tells whether the engine is initialised.
    pub fn is_initialized(&self) -> (b: bool)
        ensures
            b == self@.initialized,
    {
        self.initialized
    }

    /// How many probes wait for their replies.
    pub fn pending_count(&self) -> (n: usize)
        ensures
            n == self@.table.entries.len(),
    {
        self.table.len()
    }

    /// The microseconds that the monotonic clock has gone on since `init`;
    /// nothing where the engine is not initialised.
    pub fn timestamp_us(&self) -> (stamp: Option<u64>)
        ensures
            stamp is Some <==> self@.initialized,
    {
        if self.initialized {
            Some(micros_since(&self.started))
        } else {
            None
        }
    }

    /// Decides whether `packet` may be sent at `now_us`, and registers it
    /// where it expects a reply. `privileged` says whether the process may
    /// open raw sockets.
    ///
    /// The answer is `Success` where the packet is to be sent, and otherwise
    /// `InvalidParameter` for an engine that is not initialised,
    /// `PermissionDenied` for a process that is not privileged,
    /// `InvalidParameter` for a packet that is not valid, `AllocationFailure`
    /// where the engine waits for as many probes as it can hold; the first of
    /// these that applies.
    pub fn prepare_send(&mut self, packet: &Packet, privileged: bool, now_us: u64) -> (result:
        ErrorCode)
        requires
            old(self).wf(),
        ensures
            final(self).wf(),
            result == old(self)@.send_error(*packet, privileged, now_us),
            final(self)@ == old(self)@.send(*packet, privileged, now_us),
    {
        proof {
            lemma_engine_operations_keep_wf(
                old(self)@,
                0,
                0,
                *packet,
                privileged,
                true,
                None,
                now_us,
            );
        }
        if !self.initialized {
            return ErrorCode::InvalidParameter;
        }
        if !privileged {
            return ErrorCode::PermissionDenied;
        }
        if !packet_validate(packet) {
            return ErrorCode::InvalidParameter;
        }
        match probe_key(packet) {
            Some(key) => self.table.register(key, now_us),
            None => ErrorCode::Success,
        }
    }

    /// Takes note of how the sending of `packet` went: `sent` says whether
    /// the operating system took it. The probe of a packet that was not sent
    /// waits no longer.
    ///
    /// The answer is `InvalidParameter` for an engine that is not
    /// initialised, `SocketError` where the packet was not sent, `Success`
    /// otherwise.
    pub fn finish_send(&mut self, packet: &Packet, sent: bool) -> (result: ErrorCode)
        requires
            old(self).wf(),
        ensures
            final(self).wf(),
            result == old(self)@.finish_error(sent),
            final(self)@ == old(self)@.finish(*packet, sent),
    {
        proof {
            lemma_engine_operations_keep_wf(old(self)@, 0, 0, *packet, true, sent, None, 0);
        }
        if !self.initialized {
            return ErrorCode::InvalidParameter;
        }
        if sent {
            return ErrorCode::Success;
        }
        match probe_key(packet) {
            Some(key) => {
                self.table.cancel(key);
            },
            None => {},
        }
        ErrorCode::SocketError
    }

    /// Decides what to do at `now_us` with what was received: `raw` holds
    /// the bytes, or nothing where the wait ran out. `deadline_us` is when
    /// the caller stops waiting.
    ///
    /// Bytes that hold a packet which answers a waiting probe are delivered,
    /// decoded, and the probe waits no longer. Anything else is passed over:
    /// the answer is then `Timeout` where the deadline has come, and
    /// otherwise how long to wait on. An engine that is not initialised
    /// answers `InvalidParameter`.
    pub fn receive(&mut self, raw: Option<&[u8]>, now_us: u64, deadline_us: u64) -> (step:
        ReceiveStep)
        requires
            old(self).wf(),
        ensures
            final(self).wf(),
            final(self)@ == old(self)@.received(seen_bytes(raw), now_us),
            !old(self)@.initialized ==> step is Fail && step->Fail_error
                == ErrorCode::InvalidParameter,
            old(self)@.delivers(seen_bytes(raw), now_us) ==> step is Deliver
                && step->Deliver_packet.is_valid() && step->Deliver_packet.fields() == fields_of(
                raw->0@,
            ) && step->Deliver_packet.data@ == raw->0@.subrange(0, total_len(raw->0@)) && Some(
                step->Deliver_sent_at_us,
            ) == old(self)@.table.claimed(inbound_key(seen_bytes(raw))->0, now_us),
            old(self)@.initialized && !old(self)@.delivers(seen_bytes(raw), now_us) && now_us
                >= deadline_us ==> step is Fail && step->Fail_error == ErrorCode::Timeout,
            old(self)@.initialized && !old(self)@.delivers(seen_bytes(raw), now_us) && now_us
                < deadline_us ==> step is Wait && step->Wait_remaining_us == deadline_us - now_us,
    {
        let ghost seen = seen_bytes(raw);
        proof {
            lemma_engine_operations_keep_wf(
                old(self)@,
                0,
                0,
                arbitrary(),
                true,
                true,
                seen,
                now_us,
            );
        }
        if !self.initialized {
            return ReceiveStep::Fail { error: ErrorCode::InvalidParameter };
        }
        let mut found: Option<(Packet, ProbeKey)> = None;
        match raw {
            Some(bytes) => {
                match parse(bytes) {
                    Ok(packet) => {
                        assert(packet.wire() =~= bytes@.subrange(0, total_len(bytes@)));
                        match reply_key(&packet) {
                            Some(key) => {
                                found = Some((packet, key));
                            },
                            None => {},
                        }
                    },
                    Err(_) => {},
                }
            },
            None => {},
        }
        match found {
            Some((packet, key)) => {
                match self.table.claim(key, now_us) {
                    Some(sent_at_us) => {
                        return ReceiveStep::Deliver { packet, sent_at_us };
                    },
                    None => {},
                }
            },
            None => {
                self.table.evict_expired(now_us);
            },
        }
        if now_us >= deadline_us {
            ReceiveStep::Fail { error: ErrorCode::Timeout }
        } else {
            ReceiveStep::Wait { remaining_us: deadline_us - now_us }
        }
    }
}

} // verus!
