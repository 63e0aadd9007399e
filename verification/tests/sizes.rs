use forge::commands::install::format_size;

fn reference_size(bytes: i64) -> String {
    if bytes >= 1_048_576 {
        format!("{:.1} MB", bytes as f64 / 1_048_576.0)
    } else if bytes >= 1024 {
        format!("{:.0} KB", bytes as f64 / 1024.0)
    } else {
        format!("{bytes} B")
    }
}

#[test]
fn format_size_small_counts() {
    assert_eq!(format_size(0), "0 B");
    assert_eq!(format_size(512), "512 B");
    assert_eq!(format_size(1023), "1023 B");
    assert_eq!(format_size(-5), "-5 B");
    assert_eq!(format_size(i64::MIN), format!("{} B", i64::MIN));
}

#[test]
fn format_size_kilobytes() {
    assert_eq!(format_size(1024), "1 KB");
    assert_eq!(format_size(1536), "2 KB");
    assert_eq!(format_size(2560), reference_size(2560));
    assert_eq!(format_size(1_048_575), "1024 KB");
}

#[test]
fn format_size_megabytes() {
    assert_eq!(format_size(1_048_576), "1.0 MB");
    assert_eq!(format_size(2_202_010), "2.1 MB");
    assert_eq!(format_size(8_808_038), "8.4 MB");
    assert_eq!(format_size(1_310_720), reference_size(1_310_720));
}

#[test]
fn format_size_matches_float_formatting() {
    let mut samples: Vec<i64> = Vec::new();
    for b in -2000i64..5000 {
        samples.push(b);
    }
    for k in 0i64..4000 {
        samples.push(k * 512);
        samples.push(k * 512 + 1);
        samples.push(1_048_576 + k * 52_428);
        samples.push(1_048_576 + k * 52_429);
        samples.push(k * 104_857_6 / 10 * 10 + 52_428);
    }
    for shift in 50u32..63 {
        let base = 1i64 << shift;
        for d in -70i64..70 {
            samples.push(base + d);
            samples.push(base + d * 1024);
        }
    }
    samples.push(i64::MAX);
    samples.push(i64::MAX - 1);
    samples.push(i64::MAX - 1023);
    for b in samples {
        assert_eq!(format_size(b), reference_size(b), "bytes = {b}");
    }
}
