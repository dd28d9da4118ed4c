use netweaver::builder::{craft_icmp_echo, craft_tcp_syn, craft_udp};
use netweaver::correlation::{probe_key, reply_key, CorrelationTable, ProbeKey};
use netweaver::engine::{
    Engine, ReceiveStep, DEFAULT_PROBE_TIMEOUT_US, DEFAULT_TABLE_CAPACITY,
};
use netweaver::error::ErrorCode;
use netweaver::packet::{Packet, Protocol};
use netweaver::parser::parse;

fn echo_request(dst: u32, id: u16, seq: u16) -> Packet {
    let mut packet = Packet::new();
    assert_eq!(craft_icmp_echo(&mut packet, dst, id, seq), ErrorCode::Success);
    packet
}

/// The bytes of the packet that answers `probe`: addresses and ports the other
/// way round, an echo reply in place of an echo request.
fn answer_to(probe: &Packet) -> Vec<u8> {
    let mut wire = probe.bytes().to_vec();
    for i in 0..4 {
        wire.swap(12 + i, 16 + i);
    }
    match probe.protocol {
        Protocol::ICMP => wire[20] = 0,
        _ => {
            wire.swap(20, 22);
            wire.swap(21, 23);
        }
    }
    wire
}

fn key(protocol: Protocol, remote_ip: u32, local_id: u16, remote_id: u16) -> ProbeKey {
    ProbeKey { protocol, remote_ip, local_id, remote_id }
}

#[test]
fn test_nw_init_and_cleanup() {
    let mut engine = Engine::new();
    let result = engine.init();
    assert_eq!(result, ErrorCode::Success);
    engine.cleanup();
}

#[test]
fn engine_lifecycle_is_strict() {
    let mut engine = Engine::new();
    assert!(!engine.is_initialized());
    assert_eq!(engine.timestamp_us(), None);
    assert_eq!(engine.init_with(0, 1000), ErrorCode::InvalidParameter);
    assert!(!engine.is_initialized());
    assert_eq!(engine.init(), ErrorCode::Success);
    assert!(engine.is_initialized());
    assert_eq!(engine.init(), ErrorCode::InvalidParameter);
    assert_eq!(engine.init_with(4, 1000), ErrorCode::InvalidParameter);
    assert!(engine.timestamp_us().is_some());
    assert_eq!(engine.pending_count(), 0);
    engine.cleanup();
    assert!(!engine.is_initialized());
    engine.cleanup();
    assert_eq!(engine.init_with(4, 1000), ErrorCode::Success);
    assert_eq!(DEFAULT_TABLE_CAPACITY, 1024);
    assert_eq!(DEFAULT_PROBE_TIMEOUT_US, 5_000_000);
}

#[test]
fn engine_refuses_everything_before_init_and_after_cleanup() {
    let probe = echo_request(0x0808_0808, 1, 1);
    let reply = answer_to(&probe);
    let mut engine = Engine::new();
    for round in 0..2 {
        assert_eq!(engine.prepare_send(&probe, true, 10), ErrorCode::InvalidParameter);
        assert_eq!(engine.finish_send(&probe, true), ErrorCode::InvalidParameter);
        assert_eq!(engine.finish_send(&probe, false), ErrorCode::InvalidParameter);
        match engine.receive(Some(&reply), 20, 30) {
            ReceiveStep::Fail { error } => assert_eq!(error, ErrorCode::InvalidParameter),
            other => panic!("unexpected {:?}", other),
        }
        match engine.receive(None, 40, 30) {
            ReceiveStep::Fail { error } => assert_eq!(error, ErrorCode::InvalidParameter),
            other => panic!("unexpected {:?}", other),
        }
        assert_eq!(engine.pending_count(), 0);
        if round == 0 {
            assert_eq!(engine.init(), ErrorCode::Success);
            assert_eq!(engine.prepare_send(&probe, true, 10), ErrorCode::Success);
            assert_eq!(engine.pending_count(), 1);
            engine.cleanup();
        }
    }
}

#[test]
fn send_checks_come_in_order() {
    let probe = echo_request(0x0808_0808, 7, 9);
    let mut broken = echo_request(0x0808_0808, 7, 9);
    broken.length = 0;
    let mut engine = Engine::new();
    assert_eq!(engine.init_with(2, 1_000), ErrorCode::Success);
    assert_eq!(engine.prepare_send(&broken, false, 0), ErrorCode::PermissionDenied);
    assert_eq!(engine.prepare_send(&probe, false, 0), ErrorCode::PermissionDenied);
    assert_eq!(engine.prepare_send(&broken, true, 0), ErrorCode::InvalidParameter);
    assert_eq!(engine.pending_count(), 0);
    assert_eq!(engine.prepare_send(&probe, true, 0), ErrorCode::Success);
    assert_eq!(engine.pending_count(), 1);
    // the same probe again takes no second place
    assert_eq!(engine.prepare_send(&probe, true, 5), ErrorCode::Success);
    assert_eq!(engine.pending_count(), 1);
    assert_eq!(engine.prepare_send(&echo_request(1, 1, 1), true, 6), ErrorCode::Success);
    assert_eq!(engine.prepare_send(&echo_request(1, 1, 2), true, 7), ErrorCode::AllocationFailure);
    assert_eq!(engine.pending_count(), 2);
    // at 1005 the first probe has waited its timeout out and makes room
    assert_eq!(engine.prepare_send(&echo_request(1, 1, 2), true, 1_005), ErrorCode::Success);
    assert_eq!(engine.pending_count(), 2);
    // a send that the system refused takes the probe out again
    assert_eq!(engine.finish_send(&echo_request(1, 1, 2), false), ErrorCode::SocketError);
    assert_eq!(engine.pending_count(), 1);
    assert_eq!(engine.finish_send(&echo_request(1, 1, 1), true), ErrorCode::Success);
    assert_eq!(engine.pending_count(), 1);
}

#[test]
fn replies_are_matched_to_their_probes() {
    let mut engine = Engine::new();
    assert_eq!(engine.init_with(8, 1_000_000), ErrorCode::Success);
    let probe = echo_request(0x0808_0808, 1234, 1);
    assert_eq!(engine.prepare_send(&probe, true, 100), ErrorCode::Success);
    let reply = answer_to(&probe);

    // nothing arrived yet
    match engine.receive(None, 150, 1_000) {
        ReceiveStep::Wait { remaining_us } => assert_eq!(remaining_us, 850),
        other => panic!("unexpected {:?}", other),
    }
    // noise: truncated bytes, our own request, a reply nobody waits for
    for noise in [&reply[..10], probe.bytes(), &answer_to(&echo_request(0x0808_0808, 1234, 2))[..]] {
        match engine.receive(Some(noise), 200, 1_000) {
            ReceiveStep::Wait { remaining_us } => assert_eq!(remaining_us, 800),
            other => panic!("unexpected {:?}", other),
        }
    }
    assert_eq!(engine.pending_count(), 1);
    match engine.receive(Some(&reply), 300, 1_000) {
        ReceiveStep::Deliver { packet, sent_at_us } => {
            assert_eq!(sent_at_us, 100);
            assert_eq!(packet.protocol, Protocol::ICMP);
            assert_eq!(packet.src_ip, 0x0808_0808);
            assert_eq!(packet.bytes(), &reply[..]);
        }
        other => panic!("unexpected {:?}", other),
    }
    assert_eq!(engine.pending_count(), 0);
    // the same reply a second time answers nothing
    match engine.receive(Some(&reply), 1_000, 1_000) {
        ReceiveStep::Fail { error } => assert_eq!(error, ErrorCode::Timeout),
        other => panic!("unexpected {:?}", other),
    }
    match engine.receive(None, 2_000, 1_000) {
        ReceiveStep::Fail { error } => assert_eq!(error, ErrorCode::Timeout),
        other => panic!("unexpected {:?}", other),
    }
}

#[test]
fn late_replies_find_their_probe_forgotten() {
    let mut engine = Engine::new();
    assert_eq!(engine.init_with(8, 1_000), ErrorCode::Success);
    let mut syn = Packet::new();
    assert_eq!(craft_tcp_syn(&mut syn, 0x0a00_0001, 0x0a00_0002, 40000, 443), ErrorCode::Success);
    assert_eq!(engine.prepare_send(&syn, true, 0), ErrorCode::Success);
    let reply = answer_to(&syn);
    match engine.receive(Some(&reply), 1_000, 5_000) {
        ReceiveStep::Wait { remaining_us } => assert_eq!(remaining_us, 4_000),
        other => panic!("unexpected {:?}", other),
    }
    assert_eq!(engine.pending_count(), 0);
    assert_eq!(engine.prepare_send(&syn, true, 2_000), ErrorCode::Success);
    match engine.receive(Some(&reply), 2_999, 5_000) {
        ReceiveStep::Deliver { packet, sent_at_us } => {
            assert_eq!(sent_at_us, 2_000);
            assert_eq!(packet.src_port, 443);
            assert_eq!(packet.dst_port, 40000);
        }
        other => panic!("unexpected {:?}", other),
    }
}

#[test]
fn probe_and_reply_keys_meet() {
    let echo = echo_request(0x0808_0808, 1234, 1);
    assert_eq!(probe_key(&echo), Some(key(Protocol::ICMP, 0x0808_0808, 1234, 1)));
    assert_eq!(reply_key(&echo), None);
    let answer = parse(&answer_to(&echo)).unwrap();
    assert_eq!(reply_key(&answer), probe_key(&echo));
    assert_eq!(probe_key(&answer), None);

    let mut syn = Packet::new();
    assert_eq!(craft_tcp_syn(&mut syn, 1, 2, 3, 4), ErrorCode::Success);
    assert_eq!(probe_key(&syn), Some(key(Protocol::TCP, 2, 3, 4)));
    assert_eq!(reply_key(&syn), Some(key(Protocol::TCP, 1, 4, 3)));
    assert_eq!(reply_key(&parse(&answer_to(&syn)).unwrap()), probe_key(&syn));

    let mut datagram = Packet::new();
    assert_eq!(craft_udp(&mut datagram, 5, 6, 7, 8, b"hello"), ErrorCode::Success);
    assert_eq!(probe_key(&datagram), Some(key(Protocol::UDP, 6, 7, 8)));
    assert_eq!(reply_key(&parse(&answer_to(&datagram)).unwrap()), probe_key(&datagram));

    let mut other = syn.bytes().to_vec();
    other[9] = 47;
    let other = parse(&other).unwrap();
    assert_eq!(probe_key(&other), None);
    assert_eq!(reply_key(&other), None);
    let mut invalid = echo_request(1, 2, 3);
    invalid.length = 5;
    assert_eq!(probe_key(&invalid), None);
    assert_eq!(reply_key(&invalid), None);
}

#[test]
fn correlation_table_is_bounded_and_forgets() {
    let a = key(Protocol::UDP, 1, 10, 53);
    let b = key(Protocol::UDP, 1, 11, 53);
    let c = key(Protocol::TCP, 1, 10, 53);
    let mut table = CorrelationTable::new(2, 100);
    assert_eq!(table.capacity(), 2);
    assert_eq!(table.timeout_us(), 100);
    assert_eq!(table.len(), 0);
    assert_eq!(table.register(a, 0), ErrorCode::Success);
    assert_eq!(table.register(b, 50), ErrorCode::Success);
    assert_eq!(table.register(c, 60), ErrorCode::AllocationFailure);
    assert!(table.is_pending(a) && table.is_pending(b) && !table.is_pending(c));
    // a is refreshed and so outlives its first deadline
    assert_eq!(table.register(a, 99), ErrorCode::Success);
    assert_eq!(table.len(), 2);
    assert_eq!(table.evict_expired(149), 0);
    assert_eq!(table.evict_expired(150), 1);
    assert!(table.is_pending(a) && !table.is_pending(b));
    assert_eq!(table.claim(b, 151), None);
    assert_eq!(table.claim(a, 198), Some(99));
    assert_eq!(table.claim(a, 198), None);
    assert_eq!(table.len(), 0);
    assert_eq!(table.register(c, 1_000), ErrorCode::Success);
    // a clock that went back forgets nothing
    assert_eq!(table.evict_expired(0), 0);
    assert_eq!(table.claim(c, 1_100), None);
    assert_eq!(table.len(), 0);
    assert_eq!(table.register(c, 5), ErrorCode::Success);
    assert!(table.cancel(c));
    assert!(!table.cancel(c));
    assert_eq!(table.register(a, 5), ErrorCode::Success);
    table.clear();
    assert_eq!(table.len(), 0);
    assert_eq!(table.capacity(), 2);
    let mut none = CorrelationTable::new(0, 100);
    assert_eq!(none.register(a, 0), ErrorCode::AllocationFailure);
    let mut instant = CorrelationTable::new(1, 0);
    assert_eq!(instant.register(a, 7), ErrorCode::Success);
    assert_eq!(instant.claim(a, 7), None);
}

#[test]
fn engine_clock_goes_forward() {
    let mut engine = Engine::new();
    assert_eq!(engine.init(), ErrorCode::Success);
    let ts1 = engine.timestamp_us().unwrap();
    let start = std::time::Instant::now();
    while start.elapsed() < std::time::Duration::from_micros(100) {}
    let ts2 = engine.timestamp_us().unwrap();
    assert!(ts2 > ts1);
    assert!(ts2 - ts1 >= 100);
}
