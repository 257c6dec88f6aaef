use fleet_metrics::collector_config::{Config, Error, Port};
use fleet_metrics::meminfo::{parse_meminfo, MeminfoError};

#[test]
fn port_accepts_registered_range() {
    let p = Port::from_str("8080").unwrap();
    assert_eq!(p.value(), 8080);
    assert_eq!(Port::from_str("1024").unwrap().value(), 1024);
    assert_eq!(Port::from_str("65535").unwrap().value(), 65535);
}

#[test]
fn port_accepts_leading_plus_like_a_decimal_parse() {
    assert_eq!(Port::from_str("+8080").unwrap().value(), 8080);
}

#[test]
fn port_rejects_reserved_ports() {
    assert!(matches!(Port::from_str("1023"), Err(Error::BadConfigValue(_))));
    assert!(matches!(Port::from_str("80"), Err(Error::BadConfigValue(_))));
    assert!(matches!(Port::from_str("0"), Err(Error::BadConfigValue(_))));
}

#[test]
fn port_rejects_empty_as_missing() {
    assert!(matches!(Port::from_str(""), Err(Error::MissingConfigValue)));
}

#[test]
fn port_rejects_non_numbers_and_overflow() {
    assert!(matches!(Port::from_str("abc"), Err(Error::BadConfigValue(_))));
    assert!(matches!(Port::from_str("-1"), Err(Error::BadConfigValue(_))));
    assert!(matches!(Port::from_str("65536"), Err(Error::BadConfigValue(_))));
    assert!(matches!(Port::from_str("80a80"), Err(Error::BadConfigValue(_))));
    assert!(matches!(Port::from_str("+"), Err(Error::BadConfigValue(_))));
    assert!(matches!(
        Port::from_str("99999999999999999999999999"),
        Err(Error::BadConfigValue(_))
    ));
}

#[test]
fn port_error_carries_the_offending_text() {
    match Port::from_str("1023") {
        Err(Error::BadConfigValue(t)) => assert_eq!(t, "1023"),
        _ => panic!("a reserved port must be a bad value"),
    }
}

#[test]
fn config_keeps_fields_and_validates_port() {
    let c = Config::new(
        String::from("http://127.0.0.1:3001"),
        String::from("/proc"),
        String::from("/etc/hostname"),
        "4317",
    )
    .unwrap();
    assert_eq!(c.web_url, "http://127.0.0.1:3001");
    assert_eq!(c.proc_dir, "/proc");
    assert_eq!(c.hostname_path, "/etc/hostname");
    assert_eq!(c.server_port.value(), 4317);
}

#[test]
fn config_refuses_a_bad_port() {
    let r = Config::new(
        String::from("http://127.0.0.1:3001"),
        String::from("/proc"),
        String::from("/etc/hostname"),
        "22",
    );
    assert!(matches!(r, Err(Error::BadConfigValue(_))));
}

#[test]
fn meminfo_reads_the_five_counters_in_byte_units() {
    let table = b"MemTotal:       1000 kB\nMemFree:         200 kB\nMemAvailable:    300 kB\nBuffers:          50 kB\nCached:          150 kB\n";
    let m = parse_meminfo(table).unwrap();
    assert_eq!(m.mem_total, 1_000_000);
    assert_eq!(m.mem_free, 200_000);
    assert_eq!(m.mem_available, 300_000);
    assert_eq!(m.buffers, 50_000);
    assert_eq!(m.cached, 150_000);
}

#[test]
fn meminfo_without_recognized_keys_is_all_zero_not_an_error() {
    let table = b"SwapTotal:      2000 kB\nHugePagesTotal:    0\nDirty:            12 kB\n";
    let m = parse_meminfo(table).unwrap();
    assert_eq!(m.mem_total, 0);
    assert_eq!(m.mem_free, 0);
    assert_eq!(m.mem_available, 0);
    assert_eq!(m.buffers, 0);
    assert_eq!(m.cached, 0);
}

#[test]
fn meminfo_empty_table_is_all_zero() {
    let m = parse_meminfo(b"").unwrap();
    assert_eq!(m.mem_total, 0);
    assert_eq!(m.cached, 0);
}

#[test]
fn meminfo_reads_a_last_line_without_newline() {
    let m = parse_meminfo(b"MemTotal: 7 kB").unwrap();
    assert_eq!(m.mem_total, 7000);
}

#[test]
fn meminfo_later_line_overwrites_an_earlier_one() {
    let m = parse_meminfo(b"MemFree: 1 kB\nMemFree: 2 kB\n").unwrap();
    assert_eq!(m.mem_free, 2000);
}

#[test]
fn meminfo_ignores_lines_that_only_resemble_keys() {
    let m = parse_meminfo(b"SwapCached: 9 kB\nmemtotal: 9 kB\n Cached: 9 kB\n").unwrap();
    assert_eq!(m.cached, 0);
    assert_eq!(m.mem_total, 0);
}

#[test]
fn meminfo_malformed_value_is_an_error() {
    assert!(matches!(
        parse_meminfo(b"MemTotal: abc kB\n"),
        Err(MeminfoError::MalformedValue)
    ));
    assert!(matches!(
        parse_meminfo(b"MemTotal:\n"),
        Err(MeminfoError::MalformedValue)
    ));
    // A counter whose byte count cannot fit 64 bits refuses the table too.
    assert!(matches!(
        parse_meminfo(b"MemTotal: 99999999999999999999 kB\n"),
        Err(MeminfoError::MalformedValue)
    ));
}

#[test]
fn meminfo_accepts_a_signed_looking_counter() {
    let m = parse_meminfo(b"MemTotal: +5 kB\n").unwrap();
    assert_eq!(m.mem_total, 5000);
}
