use mcscan::stats::{ScanMessage, StatsCollector};

#[test]
fn fresh_aggregator_report_with_zero_runtime() {
    let mut stats = StatsCollector::new();
    stats.update(ScanMessage::Scanned(50));
    stats.update(ScanMessage::OpenPort(String::from("1.2.3.4")));
    stats.update(ScanMessage::Found(String::from(
        "[FOUND] 1.2.3.4:25565 - 1/20 - 1.21 - hi",
    )));
    let report = stats.report_stats(0, 60);
    assert_eq!(report.scanned_total, 50);
    assert_eq!(report.ports_open, 1);
    assert_eq!(report.servers_found, 1);
    // Zero elapsed runtime: the rate is the total itself, never a division by zero.
    assert_eq!(report.total_rate, 50);
}

#[test]
fn counters_accumulate_per_message_kind() {
    let mut stats = StatsCollector::new();
    stats.update(ScanMessage::Scanned(10));
    stats.update(ScanMessage::Scanned(30));
    stats.update(ScanMessage::OpenPort(String::from("10.0.0.1")));
    stats.update(ScanMessage::OpenPort(String::from("10.0.0.2")));
    stats.update(ScanMessage::Found(String::from("x")));
    assert_eq!(stats.scanned_total, 40);
    assert_eq!(stats.ports_open, 2);
    assert_eq!(stats.servers_found, 1);
}

#[test]
fn report_computes_rates_and_ratios() {
    let mut stats = StatsCollector::new();
    stats.update(ScanMessage::Scanned(1000));
    for _ in 0..5 {
        stats.update(ScanMessage::OpenPort(String::from("ip")));
    }
    stats.update(ScanMessage::Found(String::from("m")));
    let report = stats.report_stats(120, 60);
    assert_eq!(report.total_rate, 1000 * 60 / 120);
    assert_eq!(report.recent_rate, 1000 * 60 / 60);
    assert_eq!(report.open_rate_millipercent, 5 * 100_000 / 1000); // 0.5% as 500
    assert_eq!(report.success_rate_millipercent, 100); // 0.1% as 100
    assert!(report.has_recent_activity);
}

#[test]
fn report_resets_the_baselines() {
    let mut stats = StatsCollector::new();
    stats.update(ScanMessage::Scanned(100));
    stats.update(ScanMessage::OpenPort(String::from("a")));
    let first = stats.report_stats(10, 60);
    assert_eq!(first.scan_delta, 100);
    assert_eq!(first.port_delta, 1);
    let second = stats.report_stats(20, 60);
    assert_eq!(second.scan_delta, 0);
    assert_eq!(second.port_delta, 0);
    assert_eq!(second.server_delta, 0);
    assert_eq!(second.recent_rate, 0);
    assert!(!second.has_recent_activity);
    assert_eq!(second.scanned_total, 100, "totals must survive a report");
}

#[test]
fn delta_rates_cover_only_the_interval() {
    let mut stats = StatsCollector::new();
    stats.update(ScanMessage::Scanned(600));
    let _ = stats.report_stats(60, 60);
    stats.update(ScanMessage::Scanned(30));
    let report = stats.report_stats(120, 60);
    assert_eq!(report.scan_delta, 30);
    assert_eq!(report.recent_rate, 30 * 60 / 60);
    assert_eq!(report.total_rate, 630 * 60 / 120);
}

#[test]
fn should_report_compares_elapsed_to_interval() {
    let stats = StatsCollector::new();
    assert!(!stats.should_report_stats(59, 60));
    assert!(stats.should_report_stats(60, 60));
    assert!(stats.should_report_stats(61, 60));
}
