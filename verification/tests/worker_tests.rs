use useless::workers::cpu::{apply_target_units, busy_millis, cpu_target_units};
use useless::workers::memory::{
    kib_to_bytes, mem_total_kib, memory_target_size, resize_buffer, touch_buffer,
};
use useless::workers::network::{
    download_rate, network_round, pick_target, pick_target_with, DownloadBudget, DownloadStep,
    NetworkRound, ParsedUrl, UrlError,
};
use useless::config::{Config, Preset};

#[test]
fn cpu_units_follow_duty() {
    assert_eq!(cpu_target_units(true, 4, 15, 100), 600);
    assert_eq!(cpu_target_units(true, 2, 100, 100), 2000);
    assert_eq!(cpu_target_units(true, 2, 255, 255), 2000);
    assert_eq!(cpu_target_units(false, 4, 15, 100), 0);
}

#[test]
fn target_units_spread_over_threads() {
    let mut duties = vec![7u32; 4];
    apply_target_units(&mut duties, 2500);
    assert_eq!(duties, vec![1000, 1000, 500, 0]);
    apply_target_units(&mut duties, 9000);
    assert_eq!(duties, vec![1000, 1000, 1000, 1000]);
    apply_target_units(&mut duties, 0);
    assert_eq!(duties, vec![0, 0, 0, 0]);
}

#[test]
fn busy_share_of_a_cycle() {
    assert_eq!(busy_millis(0), 0);
    assert_eq!(busy_millis(450), 45);
    assert_eq!(busy_millis(5000), 100);
}

#[test]
fn memory_target() {
    assert_eq!(memory_target_size(true, 1_000_000, 15, 100), 150_000);
    assert_eq!(memory_target_size(true, 0, 15, 100), 0);
    assert_eq!(memory_target_size(false, 1_000_000, 15, 100), 0);
    assert_eq!(memory_target_size(true, u64::MAX, 100, 100) as u64, u64::MAX / 10_000);
}

#[test]
fn buffer_resizing_and_touching() {
    let mut b: Vec<u8> = Vec::new();
    resize_buffer(&mut b, 10_000);
    assert_eq!(b.len(), 10_000);
    assert_eq!(b[0], 1);
    assert_eq!(b[4096], 1);
    assert_eq!(b[8192], 1);
    assert_eq!(b[1], 0);
    resize_buffer(&mut b, 5000);
    assert_eq!(b.len(), 5000);
    resize_buffer(&mut b, 0);
    assert!(b.is_empty());
    let mut c = vec![255u8; 3];
    touch_buffer(&mut c);
    assert_eq!(c, vec![0, 255, 255]);
}

#[test]
fn meminfo_total() {
    let content = "MemFree: 10 kB\nMemTotal:       16303412 kB\nMemTotal: 1 kB\n";
    assert_eq!(mem_total_kib(content), Some(16303412));
    assert_eq!(mem_total_kib("MemFree: 1 kB\n"), None);
    assert_eq!(kib_to_bytes(2), 2048);
}

#[test]
fn target_rotation() {
    let targets = vec!["a".to_string(), "b".to_string(), "c".to_string()];
    let mut cursor = 0usize;
    assert_eq!(pick_target_with(&targets, &mut cursor, 4), "b");
    assert_eq!(cursor, 1);
    assert_eq!(pick_target_with(&targets, &mut cursor, 0), "b");
    assert_eq!(cursor, 2);
    let empty: Vec<String> = Vec::new();
    assert_eq!(pick_target_with(&empty, &mut cursor, 1), "");
    assert_eq!(cursor, 2);
    let t = pick_target(&targets, &mut cursor);
    assert!(targets.contains(&t));
    assert_eq!(cursor, 0);
}

#[test]
fn download_rates() {
    assert_eq!(download_rate(10, 100), 1_250_000);
    assert_eq!(download_rate(10, 45), 562_500);
    assert_eq!(download_rate(0, 100), 0);
}

#[test]
fn download_budget_steps() {
    let mut b = DownloadBudget::new(1000, 2, 0);
    assert_eq!(b.next(10, false, true, 32 * 1024), DownloadStep::Read(1000));
    b.record(600);
    assert_eq!(b.next(20, false, true, 32 * 1024), DownloadStep::Read(400));
    assert_eq!(b.next(20, false, true, 100), DownloadStep::Read(100));
    b.record(400);
    assert_eq!(b.next(30, false, true, 32 * 1024), DownloadStep::Wait);
    assert_eq!(b.next(1000, false, true, 32 * 1024), DownloadStep::Read(1000));
    assert_eq!(b.next(1500, true, true, 32 * 1024), DownloadStep::Stop);
    assert_eq!(b.next(1500, false, false, 32 * 1024), DownloadStep::Stop);
    assert_eq!(b.next(2000, false, true, 32 * 1024), DownloadStep::Stop);
}

#[test]
fn parses_http_targets() {
    let u = ParsedUrl::parse("http://mirror.nl.leaseweb.net/speedtest/10000mb.bin").unwrap();
    assert_eq!(u.host, "mirror.nl.leaseweb.net");
    assert_eq!(u.port, 80);
    assert_eq!(u.path, "/speedtest/10000mb.bin");
    let u = ParsedUrl::parse("http://example.com:8080").unwrap();
    assert_eq!(u.host, "example.com");
    assert_eq!(u.port, 8080);
    assert_eq!(u.path, "/");
    let u = ParsedUrl::parse("http://example.com:99999/x").unwrap();
    assert_eq!(u.port, 80);
    assert_eq!(u.path, "/x");
    assert!(matches!(
        ParsedUrl::parse("https://example.com/"),
        Err(UrlError::UnsupportedScheme)
    ));
}

#[test]
fn request_names_path_and_host() {
    let u = ParsedUrl::parse("http://example.com:8080/a/b.bin").unwrap();
    assert_eq!(
        u.request_text(),
        "GET /a/b.bin HTTP/1.1\r\nHost: example.com\r\nUser-Agent: useless/0.1.0\r\nConnection: close\r\n\r\n"
    );
}

#[test]
fn network_rounds_rest_or_fetch() {
    let mut net = Config::for_preset(Preset::Balanced).network;
    net.targets = vec!["http://example.com/x".to_string()];
    net.max_mbps = 8;
    net.connect_timeout_secs = 0;
    net.window.burst_secs_max = 30;
    let mut cursor = 0usize;
    assert!(matches!(network_round(false, 100, &net, &mut cursor), NetworkRound::Idle));
    assert_eq!(cursor, 0);
    match network_round(true, 50, &net, &mut cursor) {
        NetworkRound::Fetch { target, rate, burst_secs, timeout_secs } => {
            assert_eq!(target, "http://example.com/x");
            assert_eq!(rate, 500_000);
            assert_eq!(burst_secs, 30);
            assert_eq!(timeout_secs, 1);
        }
        NetworkRound::Idle => panic!("expected a fetch"),
    }
    assert_eq!(cursor, 0);
    assert!(matches!(network_round(true, 0, &net, &mut cursor), NetworkRound::Idle));
    net.max_mbps = 0;
    assert!(matches!(network_round(true, 100, &net, &mut cursor), NetworkRound::Idle));
    net.max_mbps = 8;
    net.targets.clear();
    assert!(matches!(network_round(true, 100, &net, &mut cursor), NetworkRound::Idle));
}
