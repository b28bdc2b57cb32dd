use lindiction::hw_detect::{detect, parse_kb_line, parse_meminfo_str};

#[test]
fn parses_representative_meminfo_sample() {
    let sample = "\
MemTotal:       16384000 kB
MemFree:         2048000 kB
MemAvailable:   12288000 kB
Buffers:          256000 kB
Cached:          4096000 kB
";
    let (total, avail) = parse_meminfo_str(sample).expect("must parse");
    assert_eq!(total, 16_384_000 * 1024);
    assert_eq!(avail, 12_288_000 * 1024);
}

#[test]
fn missing_memavailable_rejects() {
    let sample = "\
MemTotal:       16384000 kB
MemFree:         2048000 kB
";
    assert!(parse_meminfo_str(sample).is_none());
}

#[test]
fn missing_memtotal_rejects() {
    let sample = "MemAvailable:   12288000 kB\n";
    assert!(parse_meminfo_str(sample).is_none());
}

#[test]
fn empty_input_rejects() {
    assert!(parse_meminfo_str("").is_none());
}

#[test]
fn parse_kb_line_handles_various_spacing() {
    assert_eq!(parse_kb_line("   12345 kB").unwrap(), 12_345 * 1024);
    assert_eq!(parse_kb_line("0 kB").unwrap(), 0);
    assert_eq!(parse_kb_line("\t100 kB\t").unwrap(), 100 * 1024);
}

#[test]
fn parse_kb_line_rejects_unknown_units() {
    assert!(parse_kb_line("   12345 MB").is_none());
    assert!(parse_kb_line("12345").is_none());
}

#[test]
fn numbers_that_do_not_fit_are_no_value() {
    assert!(parse_kb_line("18446744073709551616 kB").is_none());
    assert!(parse_kb_line("18446744073709551615 kB").is_none());
    assert_eq!(
        parse_kb_line("18014398509481983 kB").unwrap(),
        18_014_398_509_481_983 * 1024
    );
    assert!(parse_kb_line("-1 kB").is_none());
    assert!(parse_kb_line("+7kB").is_some());
    assert!(parse_kb_line("kB").is_none());
}

#[test]
fn lines_may_come_in_either_order_and_the_last_one_counts() {
    let sample = "MemAvailable: 1 kB\r\nMemTotal: 2 kB\r\nMemAvailable: 3 kB";
    assert_eq!(parse_meminfo_str(sample), Some((2048, 3072)));
}

#[test]
fn detect_never_panics_and_returns_something() {
    let p = detect(None, None);
    assert!(p.cpu_threads >= 1);
    assert!(p.gpu.is_none());
    assert_eq!((p.total_ram_bytes, p.available_ram_bytes), (0, 0));
    let p = detect(Some("MemTotal: 4 kB\nMemAvailable: 2 kB\n"), Some(8));
    assert_eq!((p.total_ram_bytes, p.available_ram_bytes), (4096, 2048));
    assert_eq!(p.cpu_threads, 8);
    assert_eq!(detect(Some("garbage"), Some(2)).total_ram_bytes, 0);
}
