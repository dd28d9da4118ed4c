use netweaver::analytics::{BandwidthAnalyzer, Measurement, PacketLossDetector, SampleWindow};
use netweaver::diagnostics::{reached_target, summarize_hop, HopSummary};
use netweaver::utils::ip::Ipv4Address;
use netweaver::monitor::{total_stats, InterfaceCounters, NetworkStats};
use netweaver::plugins::{ExamplePlugin, NetweaverPlugin, PluginError, PluginManager};
use std::collections::HashMap;
use std::time::{Duration, Instant};

#[test]
fn test_plugin_manager() {
    let manager: PluginManager = PluginManager::new("/tmp/plugins");
    assert_eq!(manager.list_plugins().len(), 0);
}

#[test]
fn plugins_are_kept_by_name() {
    let mut manager: PluginManager = PluginManager::new("/tmp/plugins");
    assert_eq!(manager.plugin_dir(), "/tmp/plugins");
    assert!(manager.load_plugin("anything").is_ok());
    assert_eq!(manager.list_plugins().len(), 0);
    assert!(manager.discover_plugins().unwrap().is_empty());
    assert!(manager.register_plugin(Box::new(ExamplePlugin::new())).is_ok());
    assert_eq!(manager.list_plugins(), vec!["example"]);
    match manager.register_plugin(Box::new(ExamplePlugin::new())) {
        Err(PluginError::AlreadyLoaded { name }) => assert_eq!(name, "example"),
        other => panic!("unexpected {:?}", other),
    }
    assert_eq!(manager.list_plugins(), vec!["example"]);
    let args = vec![String::from("a")];
    assert!(manager.execute_plugin("example", &args).is_ok());
    match manager.execute_plugin("missing", &args) {
        Err(error) => {
            assert!(matches!(error, PluginError::NotFound { .. }));
            assert_eq!(error.message(), "Plugin not found: missing");
        }
        Ok(()) => panic!("a plugin that is not loaded ran"),
    }
    assert!(manager.unload_plugin("missing").is_ok());
    assert_eq!(manager.list_plugins().len(), 1);
    assert!(manager.unload_plugin("example").is_ok());
    assert_eq!(manager.list_plugins().len(), 0);
    assert!(manager.execute_plugin("example", &args).is_err());
}

#[test]
fn boxed_plugins_answer_as_their_plugins() {
    let mut boxed: Box<dyn NetweaverPlugin> = Box::new(ExamplePlugin::new());
    assert_eq!(NetweaverPlugin::name(&boxed), "example");
    assert_eq!(NetweaverPlugin::version(&boxed), "0.1.0");
    assert_eq!(
        NetweaverPlugin::description(&boxed),
        "Example plugin demonstrating the NetWeaver plugin system"
    );
    assert!(NetweaverPlugin::init(&mut boxed, &HashMap::new()).is_ok());
    assert!(NetweaverPlugin::execute(&boxed, &[String::from("x")]).is_ok());
    assert!(NetweaverPlugin::cleanup(&mut boxed).is_ok());
}

#[test]
fn example_plugin_describes_itself() {
    let mut plugin = ExamplePlugin::new();
    assert_eq!(plugin.name(), "example");
    assert_eq!(plugin.version(), "0.1.0");
    assert_eq!(plugin.description(), "Example plugin demonstrating the NetWeaver plugin system");
    assert!(plugin.init(&HashMap::new()).is_ok());
    assert!(plugin.execute(&[]).is_ok());
    assert!(plugin.cleanup().is_ok());
    let typed: PluginManager<ExamplePlugin> = PluginManager::new("plugins");
    assert!(typed.list_plugins().is_empty());
    assert_eq!(
        PluginError::Failed { reason: String::from("x") }.message(),
        "Plugin failed: x"
    );
    assert_eq!(
        PluginError::AlreadyLoaded { name: String::from("x") }.message(),
        "Plugin already loaded: x"
    );
}

/// The share of packets lost, in percent.
fn loss_rate(detector: &PacketLossDetector) -> f64 {
    if detector.sent() == 0 {
        return 0.0;
    }
    (detector.lost() as f64 / detector.sent() as f64) * 100.0
}

#[test]
fn test_packet_loss_detector() {
    let mut detector = PacketLossDetector::new();

    detector.record_sent(100);
    detector.record_received(95);

    // 5% loss
    assert_eq!(loss_rate(&detector), 5.0);
    assert_eq!(detector.lost(), 5);
    assert_eq!(detector.sent(), 100);
    assert_eq!(detector.received(), 95);

    detector.reset();
    assert_eq!(loss_rate(&detector), 0.0);
    assert_eq!(detector.sent(), 0);
    assert_eq!(detector.received(), 0);
    assert_eq!(detector.lost(), 0);
}

#[test]
fn loss_never_goes_below_zero() {
    let mut detector = PacketLossDetector::default();
    detector.record_sent(3);
    detector.record_received(10);
    assert_eq!(detector.lost(), 0);
    detector.record_sent(u64::MAX - 3);
    assert_eq!(detector.sent(), u64::MAX);
    assert_eq!(detector.lost(), u64::MAX - 10);
}

/// The bandwidth over the analyzer's window, in bytes per second.
fn current_bandwidth(analyzer: &BandwidthAnalyzer) -> f64 {
    if analyzer.sample_count() < 2 {
        return 0.0;
    }
    let duration = analyzer.span_us() as f64 / 1_000_000.0;
    if duration > 0.0 {
        analyzer.total_bytes() as f64 / duration
    } else {
        0.0
    }
}

#[test]
fn test_bandwidth_analyzer() {
    let mut analyzer = BandwidthAnalyzer::new(1_000_000);

    analyzer.add_measurement(1000);
    let start = Instant::now();
    while start.elapsed() < Duration::from_millis(100) {}
    analyzer.add_measurement(2000);

    let bandwidth = current_bandwidth(&analyzer);
    // Should have some measured bandwidth
    assert!(bandwidth > 0.0);
    assert_eq!(analyzer.sample_count(), 2);
    assert_eq!(analyzer.total_bytes(), 3000);
    assert!(analyzer.span_us() >= 100_000);
}

#[test]
fn bandwidth_from_given_times() {
    let mut analyzer = BandwidthAnalyzer::new(1_000_000);
    analyzer.add_measurement_at(0, 1000);
    assert_eq!(current_bandwidth(&analyzer), 0.0);
    analyzer.add_measurement_at(100_000, 2000);
    assert_eq!(analyzer.sample_count(), 2);
    assert_eq!(analyzer.total_bytes(), 3000);
    assert_eq!(analyzer.span_us(), 100_000);
    assert_eq!(current_bandwidth(&analyzer), 30_000.0);
}

#[test]
fn bandwidth_window_drops_old_measurements() {
    let mut analyzer = BandwidthAnalyzer::new(1_000);
    assert_eq!(analyzer.sample_count(), 0);
    assert_eq!(analyzer.total_bytes(), 0);
    assert_eq!(analyzer.span_us(), 0);
    analyzer.add_measurement_at(10, 1);
    assert_eq!(analyzer.span_us(), 0);
    analyzer.add_measurement_at(500, 2);
    analyzer.add_measurement_at(1_010, 4);
    // the cutoff is 10: nothing is older
    assert_eq!(analyzer.sample_count(), 3);
    analyzer.add_measurement_at(1_011, 8);
    // the cutoff is 11: the first measurement goes
    assert_eq!(analyzer.sample_count(), 3);
    assert_eq!(analyzer.total_bytes(), 14);
    assert_eq!(analyzer.span_us(), 511);
    analyzer.add_measurement_at(5_000, 16);
    assert_eq!(analyzer.sample_count(), 1);
    assert_eq!(analyzer.total_bytes(), 16);
    // only the front is looked at: a late measurement behind a fresh one stays
    let mut analyzer = BandwidthAnalyzer::new(100);
    analyzer.add_measurement_at(1_000, 1);
    analyzer.add_measurement_at(10, 2);
    analyzer.add_measurement_at(1_050, 4);
    assert_eq!(analyzer.sample_count(), 3);
    assert_eq!(analyzer.span_us(), 50);
    analyzer.add_measurement_at(1_101, 8);
    assert_eq!(analyzer.sample_count(), 2);
    assert_eq!(analyzer.total_bytes(), 12);
    let mut analyzer = BandwidthAnalyzer::new(u64::MAX);
    analyzer.add_measurement_at(5, u64::MAX);
    analyzer.add_measurement_at(2, u64::MAX);
    assert_eq!(analyzer.total_bytes(), 2 * (u64::MAX as u128));
    assert_eq!(analyzer.span_us(), 0);
    analyzer.add_measurement(7);
    assert_eq!(analyzer.sample_count(), 3);
    let m = Measurement { at_us: 1, bytes: 2 };
    assert_eq!(m, Measurement { at_us: 1, bytes: 2 });
}

#[test]
fn interface_counters_add_up() {
    let a = InterfaceCounters {
        transmitted: 10,
        received: 20,
        packets_transmitted: 1,
        packets_received: 2,
        errors_on_received: 3,
        errors_on_transmitted: 4,
    };
    let b = InterfaceCounters {
        transmitted: 100,
        received: 200,
        packets_transmitted: 10,
        packets_received: 20,
        errors_on_received: 30,
        errors_on_transmitted: 40,
    };
    assert_eq!(
        total_stats(&[a, b], 77),
        Some(NetworkStats {
            bytes_sent: 110,
            bytes_recv: 220,
            packets_sent: 11,
            packets_recv: 22,
            errors: 77,
            drops: 0,
            timestamp: 77,
        })
    );
    assert_eq!(
        total_stats(&[], 5),
        Some(NetworkStats {
            bytes_sent: 0,
            bytes_recv: 0,
            packets_sent: 0,
            packets_recv: 0,
            errors: 0,
            drops: 0,
            timestamp: 5,
        })
    );
    let big = InterfaceCounters { transmitted: u64::MAX, ..a };
    assert_eq!(total_stats(&[big, b], 1), None);
    let errors = InterfaceCounters { errors_on_received: u64::MAX - 4, ..a };
    assert!(total_stats(&[errors], 1).is_some());
    assert_eq!(total_stats(&[errors, a], 1), None);
}

#[test]
fn sample_window_feeds_statistics() {
    let mut window: SampleWindow<f64> = SampleWindow::new(100);

    // Add some samples
    window.add_sample(10.0);
    window.add_sample(15.0);
    window.add_sample(12.0);
    window.add_sample(20.0);

    let samples: Vec<f64> = (0..window.len()).map(|i| *window.get(i).unwrap()).collect();
    assert_eq!(samples, vec![10.0, 15.0, 12.0, 20.0]);
    assert_eq!(samples.iter().sum::<f64>() / samples.len() as f64, 14.25);
    assert_eq!(samples.iter().cloned().fold(f64::INFINITY, f64::min), 10.0);
    assert_eq!(samples.iter().cloned().fold(f64::NEG_INFINITY, f64::max), 20.0);
}

#[test]
fn sample_window_slides() {
    let mut window: SampleWindow<u32> = SampleWindow::new(3);
    assert_eq!(window.len(), 0);
    assert_eq!(window.get(0), None);
    for sample in 1..=5u32 {
        window.add_sample(sample);
    }
    assert_eq!(window.len(), 3);
    assert_eq!(window.get(0), Some(&3));
    assert_eq!(window.get(1), Some(&4));
    assert_eq!(window.get(2), Some(&5));
    assert_eq!(window.get(3), None);
    // a limit of zero keeps the last sample only
    let mut last: SampleWindow<u32> = SampleWindow::new(0);
    last.add_sample(7);
    last.add_sample(8);
    assert_eq!(last.len(), 1);
    assert_eq!(last.get(0), Some(&8));
    let mut one: SampleWindow<u32> = SampleWindow::new(1);
    one.add_sample(7);
    one.add_sample(8);
    assert_eq!(one.len(), 1);
    assert_eq!(one.get(0), Some(&8));
}

#[test]
fn hops_are_summed_up() {
    assert_eq!(
        summarize_hop(&[Some(1_500), None, Some(2_500)]),
        HopSummary { answered: 2, lost: 1, total_rtt_us: 4_000 }
    );
    assert_eq!(summarize_hop(&[]), HopSummary { answered: 0, lost: 0, total_rtt_us: 0 });
    assert_eq!(
        summarize_hop(&[None, None, None]),
        HopSummary { answered: 0, lost: 3, total_rtt_us: 0 }
    );
    assert_eq!(
        summarize_hop(&[Some(u64::MAX), Some(u64::MAX), Some(0)]),
        HopSummary { answered: 3, lost: 0, total_rtt_us: 2 * (u64::MAX as u128) }
    );
    let target = Ipv4Address::new(8, 8, 8, 8);
    assert!(reached_target(Some(Ipv4Address::new(8, 8, 8, 8)), target));
    assert!(!reached_target(Some(Ipv4Address::new(8, 8, 4, 4)), target));
    assert!(!reached_target(None, target));
}
