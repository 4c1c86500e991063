use rust_widgets::poll::disk;
use rust_widgets::poll::memory;
use rust_widgets::poll::network::NetworkInfo;
use rust_widgets::poll::thermal::find_sensor;
use rust_widgets::poll::cpu::average_frequency;

fn float_rate(bytes: u64) -> String {
    const KB: u64 = 1024;
    const MB: u64 = 1_048_576;
    const GB: u64 = 1_073_741_824;
    if bytes >= GB {
        format!("{:.1} GB/s", bytes as f64 / GB as f64)
    } else if bytes >= MB {
        format!("{:.1} MB/s", bytes as f64 / MB as f64)
    } else if bytes >= KB {
        format!("{:.1} KB/s", bytes as f64 / KB as f64)
    } else {
        format!("{} B/s", bytes)
    }
}

fn samples() -> Vec<u64> {
    let mut v = vec![0, 1, 999, 1023, 1024, 1075, 1126, 1127, 1177, 1178, 1228, 1280, 1331, 1536, 2048, 2099,
        1_048_575, 1_048_576, 1_100_000, 1_101_005, 1_153_433, 1_153_434, 5_000_000, 1_073_741_823,
        1_073_741_824, 1_127_428_915, 1_127_428_916, 1_181_116_006, 10_000_000_000,
        1_099_511_627_776, 9_007_199_254_740_991, 9_007_199_254_740_993, 9_007_199_254_740_995,
        18_014_398_509_481_985, u64::MAX - 1, u64::MAX];
    // ties for one decimal: k * 2^n / 20 boundaries
    for k in 0..200u64 {
        v.push(k * 1024 / 20 + 1024);
        v.push(k * 1_048_576 / 20 + 1_048_576);
        v.push(k * 53_687_091 + 1_073_741_824);
    }
    v
}

#[test]
fn rate_text_matches_float_formatting() {
    for b in samples() {
        assert_eq!(NetworkInfo::format_rate(b), float_rate(b), "bytes {}", b);
    }
}

#[test]
fn rate_strings_of_network_info() {
    let info = NetworkInfo { interface: "wlo1".to_string(), rx_bytes: 0, tx_bytes: 0, rx_rate: 1536, tx_rate: 512 };
    assert_eq!(info.rx_rate_str(), "1.5 KB/s");
    assert_eq!(info.tx_rate_str(), "512 B/s");
}

#[test]
fn memory_and_disk_sizes_match_float_formatting() {
    for b in samples() {
        let mem = if b >= 1_073_741_824 {
            format!("{:.1} GB", b as f64 / 1_073_741_824u64 as f64)
        } else {
            format!("{:.0} MB", b as f64 / 1_048_576u64 as f64)
        };
        assert_eq!(memory::format_bytes(b), mem, "bytes {}", b);
        let d = if b >= 1_099_511_627_776 {
            format!("{:.1} TB", b as f64 / 1_099_511_627_776u64 as f64)
        } else if b >= 1_073_741_824 {
            format!("{:.1} GB", b as f64 / 1_073_741_824u64 as f64)
        } else {
            format!("{:.0} MB", b as f64 / 1_048_576u64 as f64)
        };
        assert_eq!(disk::format_bytes(b), d, "bytes {}", b);
        let s = format!("{:.1} / {:.1} GB", b as f64 / 1_073_741_824.0, 3u64 as f64 / 1_073_741_824.0);
        assert_eq!(memory::summary_str(b, 3), s);
    }
}

#[test]
fn cpu_sensor_is_first_with_cpu_or_core() {
    let labels: Vec<String> = ["Package id 0", "Core 0", "nvme Composite"].iter().map(|s| s.to_string()).collect();
    assert_eq!(find_sensor(&labels, true), Some(1));
    let labels: Vec<String> = ["acpitz", "amdgpu edge", "CPU Tctl"].iter().map(|s| s.to_string()).collect();
    assert_eq!(find_sensor(&labels, true), Some(2));
    assert_eq!(find_sensor(&labels, false), Some(1));
    let labels: Vec<String> = ["Package id 0"].iter().map(|s| s.to_string()).collect();
    assert_eq!(find_sensor(&labels, true), None);
}

#[test]
fn cpu_average_frequency() {
    assert_eq!(average_frequency(&vec![]), 0);
    assert_eq!(average_frequency(&vec![3000, 2000, 2001]), 2333);
    assert_eq!(average_frequency(&vec![u64::MAX]), u64::MAX);
}
