use shao::sensors::network::{
    format_bytes, parse_proc_net_dev, NetSample, NetworkCollector, TrafficCategory,
};

/// The byte formatting of the dashboard, written with floating point.
fn float_format_bytes(bytes: u64) -> String {
    let mut b = bytes as f64;
    for u in ["B", "KB", "MB", "GB", "TB"] {
        if b < 1024.0 {
            return format!("{:.1} {}", b, u);
        }
        b /= 1024.0;
    }
    format!("{:.1} PB", b)
}

#[test]
fn format_bytes_exact_values() {
    assert_eq!(format_bytes(0), "0.0 B");
    assert_eq!(format_bytes(512), "512.0 B");
    assert_eq!(format_bytes(1023), "1023.0 B");
    assert_eq!(format_bytes(1024), "1.0 KB");
    assert_eq!(format_bytes(1536), "1.5 KB");
    assert_eq!(format_bytes(1048576), "1.0 MB");
    assert_eq!(format_bytes(5 * 1073741824), "5.0 GB");
    assert_eq!(format_bytes(1099511627776), "1.0 TB");
    assert_eq!(format_bytes(1125899906842624), "1.0 PB");
}

#[test]
fn format_bytes_matches_floating_point() {
    let mut values: Vec<u64> = vec![
        1, 9, 10, 99, 100, 1000, 1023, 1024, 1025, 1228, 1280, 1331, 1332, 1433, 2047, 2048,
        10239, 10240, 102400, 1048575, 1048576, 1048577, 1572864, 1073741823, 1073741824,
        1099511627775, 1099511627776, 1125899906842623, 1125899906842624,
        9007199254740991, 9007199254740992, 9007199254740993, 9007199254740995,
        18014398509481985, u64::MAX, u64::MAX - 1, u64::MAX / 2, u64::MAX / 3,
    ];
    // Ties at the tenth and their neighbours, in every unit.
    let mut scale: u64 = 1;
    for _ in 0..6 {
        for m in [5u64, 15, 25, 35, 125, 1275, 20475] {
            let v = (m as u128) * (scale as u128) / 10;
            if v <= u64::MAX as u128 {
                let v = v as u64;
                values.push(v);
                values.push(v.saturating_sub(1));
                values.push(v.saturating_add(1));
            }
        }
        scale = scale.saturating_mul(1024);
    }
    // Values near the largest exactly representable integers.
    for shift in 53..64 {
        let base = 1u64 << shift;
        for d in 0..6u64 {
            values.push(base + d);
            values.push(base - d);
            values.push(base + (1u64 << (shift - 53)) / 2);
        }
    }
    // A spread of pseudo-random values.
    let mut x: u64 = 0x9E3779B97F4A7C15;
    for _ in 0..20000 {
        x ^= x << 13;
        x ^= x >> 7;
        x ^= x << 17;
        values.push(x >> (x % 64));
    }
    for v in values {
        assert_eq!(format_bytes(v), float_format_bytes(v), "bytes = {}", v);
    }
}

#[test]
fn parse_proc_net_dev_reads_counters() {
    let text = "Inter-|   Receive                                                |  Transmit\n face |bytes    packets errs drop fifo frame compressed multicast|bytes    packets errs drop fifo colls carrier compressed\n    lo: 1000 10 0 0 0 0 0 0 2000 20 0 0 0 0 0 0\n  eth0: 123456 100 0 0 0 0 0 0 654321 90 0 0 0 0 0 0\nwlan0: 5 1 0 0 0 0 0 0\n";
    let mut samples = parse_proc_net_dev(text);
    samples.sort_by(|a, b| a.name.cmp(&b.name));
    assert_eq!(samples.len(), 2);
    assert_eq!(samples[0].name, "eth0");
    assert_eq!(samples[0].rx_bytes, 123456);
    assert_eq!(samples[0].tx_bytes, 654321);
    assert_eq!(samples[1].name, "lo");
    assert_eq!(samples[1].rx_bytes, 1000);
    assert_eq!(samples[1].tx_bytes, 2000);
}

#[test]
fn parse_proc_net_dev_later_line_wins_and_headers_skipped() {
    let text = "a: 1 2 3 4 5 6 7 8 9\nb: 1 2 3 4 5 6 7 8 9\nx: 1 2 3 4 5 6 7 8 9\r\nx: 7 0 0 0 0 0 0 0 8 x y\ny:z: 1 2 3 4 5 6 7 8 9";
    let samples = parse_proc_net_dev(text);
    assert_eq!(samples.len(), 1);
    assert_eq!(samples[0].name, "x");
    assert_eq!(samples[0].rx_bytes, 7);
    assert_eq!(samples[0].tx_bytes, 8);
}

#[test]
fn parse_proc_net_dev_skips_unparsable_fields() {
    let text = "h1\nh2\n eth1 : +1 junk 2 3 4 5 6 7 8 9\n";
    let samples = parse_proc_net_dev(text);
    assert_eq!(samples.len(), 1);
    assert_eq!(samples[0].name, "eth1");
    assert_eq!(samples[0].rx_bytes, 1);
    assert_eq!(samples[0].tx_bytes, 9);
}

fn sample(name: &str, rx: u64, tx: u64) -> NetSample {
    NetSample { name: name.to_string(), rx_bytes: rx, tx_bytes: tx }
}

fn strings(v: &[&str]) -> Vec<String> {
    v.iter().map(|s| s.to_string()).collect()
}

#[test]
fn tally_classifies_and_counts_deltas() {
    let mut c = NetworkCollector::new(
        strings(&["enp2s0", "eth0", "wlp3s0"]),
        strings(&["wlp"]),
        strings(&["tailscale0", "wg0"]),
    );
    let first = c.tally(vec![sample("eth0", 1000, 500), sample("wlp3s0", 10, 20)]);
    assert_eq!(first.interfaces.len(), 2);
    assert_eq!(first.interfaces[0].category, TrafficCategory::Lan);
    assert_eq!(first.interfaces[1].category, TrafficCategory::Wlan);
    assert_eq!(first.interfaces[0].rx_delta, 0);
    assert_eq!(first.lan.rx_bytes, 1000);
    assert_eq!(first.lan.combined_total_human, "1.5 KB");
    assert_eq!(first.wlan.tx_bytes, 20);

    let second = c.tally(vec![
        sample("eth0", 3048, 400),
        sample("tailscale0", 7, 9),
        sample("docker0", 1, 1),
    ]);
    assert_eq!(second.interfaces[0].rx_delta, 2048);
    assert_eq!(second.interfaces[0].tx_delta, 0);
    assert_eq!(second.interfaces[0].rx_total_human, "3.0 KB");
    assert_eq!(second.interfaces[1].category, TrafficCategory::Vpn);
    assert_eq!(second.interfaces[1].rx_delta, 0);
    assert_eq!(second.interfaces[2].category, TrafficCategory::Other);
    assert_eq!(second.interfaces[2].category.label(), "Other");
    assert_eq!(second.vpn.rx_bytes, 7);
    assert_eq!(second.wlan.rx_bytes, 0);
    assert_eq!(second.wlan.rx_total_human, "0.0 B");
    assert_eq!(c.last_samples.len(), 3);
}

#[test]
fn category_labels() {
    assert_eq!(TrafficCategory::Wlan.label(), "WLAN");
    assert_eq!(TrafficCategory::Lan.label(), "LAN");
    assert_eq!(TrafficCategory::Vpn.label(), "VPN");
}

#[test]
fn tallying_the_same_sample_twice_shows_no_traffic() {
    let mut c = NetworkCollector::new(strings(&["eth"]), strings(&[]), strings(&["wg"]));
    let _ = c.tally(vec![sample("eth0", 500, 600), sample("wg0", 1, 2)]);
    let again = c.tally(vec![sample("eth0", 500, 600), sample("wg0", 1, 2)]);
    assert!(again.interfaces.iter().all(|i| i.rx_delta == 0 && i.tx_delta == 0));
    assert_eq!(again.lan.rx_bytes + again.vpn.rx_bytes, 501);
}

#[test]
fn counter_going_backwards_counts_nothing() {
    let mut c = NetworkCollector::new(strings(&["eth"]), strings(&[]), strings(&[]));
    let _ = c.tally(vec![sample("eth0", 5000, 6000)]);
    let t = c.tally(vec![sample("eth0", 10, 7000)]);
    assert_eq!(t.interfaces[0].rx_delta, 0);
    assert_eq!(t.interfaces[0].tx_delta, 1000);
}

#[test]
fn can_tally_rejects_duplicates_and_overflow() {
    let c = NetworkCollector::new(strings(&["eth"]), strings(&[]), strings(&[]));
    assert!(c.can_tally(&vec![sample("eth0", 1, 1), sample("x", u64::MAX, u64::MAX)]));
    assert!(!c.can_tally(&vec![sample("eth0", 1, 1), sample("eth0", 2, 2)]));
    assert!(!c.can_tally(&vec![sample("eth0", u64::MAX, 1)]));
    assert!(!c.can_tally(&vec![sample("eth0", u64::MAX / 2 + 1, 0), sample("eth1", u64::MAX / 2 + 1, 0)]));
}

#[test]
fn numbers_follow_str_parse() {
    // `+` alone, overflowing values and non-digits are skipped; NBSP separates.
    let text = "h\nh\nif0: + 18446744073709551616 -1 1\u{a0}2 3 4 5 6 7 8 9\n";
    let samples = parse_proc_net_dev(text);
    assert_eq!(samples.len(), 1);
    assert_eq!(samples[0].name, "if0");
    assert_eq!(samples[0].rx_bytes, 1);
    assert_eq!(samples[0].tx_bytes, 9);
    let short = parse_proc_net_dev("h\nh\nif1: 1 2 3 4 5 6 7 8\n");
    assert!(short.is_empty());
}
