use hostinfo::{
    assemble_system_info, decode_identity, get_uptime, kb_to_gb, minf_get_gb, minf_get_kb,
    parse_minf_key, parse_osr_key, parse_uptime_seconds, shell_name, uptime_from_seconds,
    used_mem, SystemInfo, Type,
};
use hostinfo::text::{chars_of, decimal_text, parse_decimal, parse_unsigned};

const OS_RELEASE: &str = "PRETTY_NAME=\"Arch Linux\"\nNAME=\"Arch Linux\"\nID=arch\nBUILD_ID=rolling\n";
const MEMINFO: &str = "MemTotal:       16384000 kB\nMemFree:         1000000 kB\nMemAvailable:    8192000 kB\nBuffers:          100000 kB\nCached:          4096000 kB\nSwapCached:            0 kB\n";

fn gather() -> Option<SystemInfo> {
    assemble_system_info(
        OS_RELEASE,
        MEMINFO,
        "90065.12 180000.50\n",
        "alice".to_string(),
        "workstation".to_string(),
        "6.1.0-arch1".to_string(),
        "/usr/bin/zsh",
    )
}

#[test]
fn kb_to_gb_zero_is_bytes() {
    assert_eq!(kb_to_gb(0), Some("0 B".to_string()));
}

#[test]
fn kb_to_gb_one_gibibyte() {
    assert_eq!(kb_to_gb(1048576), Some("1.07 GB".to_string()));
}

#[test]
fn kb_to_gb_small_and_large() {
    assert_eq!(kb_to_gb(1), Some("1.02 KB".to_string()));
    assert_eq!(kb_to_gb(16384000), Some("16.78 GB".to_string()));
    assert_eq!(kb_to_gb(2000000000), Some("2.05 TB".to_string()));
}

#[test]
fn kb_to_gb_negative_fails() {
    assert_eq!(kb_to_gb(-1), None);
    assert_eq!(kb_to_gb(i64::MIN), None);
}

#[test]
fn release_key_quoted_and_plain() {
    let text = "NAME=\"Ubuntu\"\nID=ubuntu\n";
    assert_eq!(parse_osr_key(text, "NAME"), Some("Ubuntu".to_string()));
    assert_eq!(parse_osr_key(text, "ID"), Some("ubuntu".to_string()));
}

#[test]
fn release_key_missing() {
    let text = "NAME=\"Ubuntu\"\nID=ubuntu\n";
    assert_eq!(parse_osr_key(text, "BUILD_ID"), None);
    assert_eq!(parse_osr_key("", "NAME"), None);
}

#[test]
fn release_key_without_value() {
    assert_eq!(parse_osr_key("NAME=\nID=x\n", "NAME"), None);
    assert_eq!(parse_osr_key("ID=x\nNAME=", "NAME"), None);
}

#[test]
fn release_key_strips_every_quote() {
    assert_eq!(
        parse_osr_key("VERSION=\"22.04 \"LTS\"\"\n", "VERSION"),
        Some("22.04 LTS".to_string())
    );
    assert_eq!(parse_osr_key("NAME=\"\"\n", "NAME"), Some(String::new()));
}

#[test]
fn release_key_first_occurrence_and_last_line() {
    assert_eq!(parse_osr_key(OS_RELEASE, "NAME"), Some("Arch Linux".to_string()));
    assert_eq!(parse_osr_key("A=1\nA=2", "A"), Some("1".to_string()));
    assert_eq!(parse_osr_key("X=1\nID=last", "ID"), Some("last".to_string()));
}

#[test]
fn stat_key_mem_total() {
    let text = "MemTotal:       16384000 kB\n";
    assert_eq!(parse_minf_key(text, "MemTotal"), Some("16384000".to_string()));
}

#[test]
fn stat_key_first_line_with_prefix() {
    assert_eq!(parse_minf_key(MEMINFO, "Cached"), Some("4096000".to_string()));
    assert_eq!(parse_minf_key(MEMINFO, "SwapCached"), Some("0".to_string()));
    assert_eq!(parse_minf_key(MEMINFO, "MemAvailable"), Some("8192000".to_string()));
}

#[test]
fn stat_key_missing_or_short_line() {
    assert_eq!(parse_minf_key(MEMINFO, "HugePages"), None);
    assert_eq!(parse_minf_key("MemTotal:\nOther: 5 kB\n", "MemTotal"), None);
    assert_eq!(parse_minf_key("", "MemTotal"), None);
}

#[test]
fn stat_key_tabs_and_no_unit() {
    assert_eq!(parse_minf_key("X:\t\t42", "X"), Some("42".to_string()));
}

#[test]
fn stat_amounts() {
    assert_eq!(minf_get_kb(MEMINFO, "MemTotal"), Some(16384000));
    assert_eq!(minf_get_kb("A: 12x kB\n", "A"), None);
    assert_eq!(minf_get_kb("A: 9223372036854775808 kB\n", "A"), None);
    assert_eq!(minf_get_kb("A: 9223372036854775807 kB\n", "A"), Some(i64::MAX));
    assert_eq!(minf_get_gb(MEMINFO, "Cached"), Some("4.19 GB".to_string()));
    assert_eq!(minf_get_gb(MEMINFO, "Missing"), None);
}

#[test]
fn uptime_zero_seconds() {
    let u = uptime_from_seconds(0);
    assert_eq!(u.formatted, "0 seconds");
    assert_eq!((u.days, u.hours, u.minutes, u.seconds), (0, 0, 0, 0));
}

#[test]
fn uptime_one_second() {
    assert_eq!(uptime_from_seconds(1).formatted, "1 second");
    assert_eq!(uptime_from_seconds(59).formatted, "59 seconds");
}

#[test]
fn uptime_sixty_five_seconds() {
    let u = uptime_from_seconds(65);
    assert_eq!((u.days, u.hours, u.minutes), (0, 0, 1));
    assert_eq!(u.formatted, "1 minute");
}

#[test]
fn uptime_one_day_counts_total_hours() {
    let u = uptime_from_seconds(90000);
    assert_eq!((u.days, u.hours, u.minutes), (1, 25, 0));
    assert_eq!(u.formatted, "1 day, 25 hours");
}

#[test]
fn uptime_all_clauses() {
    let u = uptime_from_seconds(2 * 86400 + 3 * 60 + 7);
    assert_eq!((u.days, u.hours, u.minutes), (2, 48, 3));
    assert_eq!(u.formatted, "2 days, 48 hours, 3 minutes");
    assert_eq!(uptime_from_seconds(3660).formatted, "1 hour, 1 minute");
    assert_eq!(uptime_from_seconds(7200).formatted, "2 hours");
}

#[test]
fn uptime_counter_text() {
    assert_eq!(parse_uptime_seconds("12345.67 8900.11"), 12345);
    assert_eq!(parse_uptime_seconds("42 7"), 42);
    assert_eq!(parse_uptime_seconds(""), 0);
    assert_eq!(parse_uptime_seconds("abc.5"), 0);
    assert_eq!(parse_uptime_seconds("4294967296.00 1.00"), 0);
    assert_eq!(parse_uptime_seconds("4294967295.00 1.00"), u32::MAX);
    let u = get_uptime("65.99 100.00\n");
    assert_eq!((u.seconds, u.minutes), (65, 1));
    assert_eq!(u.formatted, "1 minute");
}

#[test]
fn used_memory_is_difference() {
    assert_eq!(used_mem(16384000, 8192000), kb_to_gb(8192000));
    assert_eq!(used_mem(16384000, 8192000), Some("8.39 GB".to_string()));
    assert_eq!(used_mem(5, 5), Some("0 B".to_string()));
}

#[test]
fn used_memory_fails_when_available_exceeds_total() {
    assert_eq!(used_mem(1024, 2048), None);
}

#[test]
fn identity_truncated_at_terminator() {
    let mut raw = [0u8; 65];
    raw[..4].copy_from_slice(b"host");
    raw[5..9].copy_from_slice(b"junk");
    assert_eq!(decode_identity(&raw), Some("host".to_string()));
    assert_eq!(decode_identity(b"6.1.0\0\0\0"), Some("6.1.0".to_string()));
}

#[test]
fn identity_without_terminator_and_invalid() {
    assert_eq!(decode_identity(b"node"), Some("node".to_string()));
    assert_eq!(decode_identity(b""), Some(String::new()));
    assert_eq!(decode_identity(b"\0abc"), Some(String::new()));
    assert_eq!(decode_identity(&[0xff, 0xfe, 0]), None);
    assert_eq!(decode_identity(&[b'a', 0, 0xff]), Some("a".to_string()));
}

#[test]
fn identity_kinds_compare() {
    assert!(Type::HostName == Type::HostName);
    assert!(Type::Username != Type::KernelVersion);
}

#[test]
fn shell_last_segment() {
    assert_eq!(shell_name("/usr/bin/zsh"), "zsh");
    assert_eq!(shell_name("bash"), "bash");
    assert_eq!(shell_name("/bin/"), "");
}

#[test]
fn decimal_helpers() {
    assert_eq!(decimal_text(0), "0");
    assert_eq!(decimal_text(1234567890), "1234567890");
    assert_eq!(decimal_text(u64::MAX), "18446744073709551615");
    let cs = chars_of("x42y");
    assert_eq!(cs, vec!['x', '4', '2', 'y']);
    assert_eq!(parse_decimal(&cs, 1, 3), Some(42));
    assert_eq!(parse_decimal(&cs, 1, 1), None);
    assert_eq!(parse_decimal(&cs, 0, 3), None);
}

#[test]
fn gather_fills_every_field() {
    let info = gather().unwrap();
    assert_eq!(info.distro_name, "Arch Linux");
    assert_eq!(info.distro_id, "arch");
    assert_eq!(info.distro_build_id, "rolling");
    assert_eq!(info.username, "alice");
    assert_eq!(info.hostname, "workstation");
    assert_eq!(info.kernel, "6.1.0-arch1");
    assert_eq!(info.shell, "zsh");
    assert_eq!(info.uptime_seconds, 90065);
    assert_eq!((info.uptime_days, info.uptime_hours, info.uptime_minutes), (1, 25, 1));
    assert_eq!(info.uptime_formatted, "1 day, 25 hours, 1 minute");
    assert_eq!(info.total_mem, "16.78 GB");
    assert_eq!(info.cached_mem, "4.19 GB");
    assert_eq!(info.available_mem, "8.39 GB");
    assert_eq!(info.used_mem, "8.39 GB");
}

#[test]
fn gather_twice_is_identical() {
    let a = format!("{:?}", gather());
    let b = format!("{:?}", gather());
    assert_eq!(a, b);
}

#[test]
fn gather_fails_on_missing_key() {
    let r = assemble_system_info(
        "NAME=x\nID=y\n",
        MEMINFO,
        "1.0 1.0",
        "a".to_string(),
        "b".to_string(),
        "c".to_string(),
        "/bin/sh",
    );
    assert!(r.is_none());
}

#[test]
fn gather_fails_when_available_exceeds_total() {
    let r = assemble_system_info(
        OS_RELEASE,
        "MemTotal: 100 kB\nCached: 1 kB\nMemAvailable: 200 kB\n",
        "1.0 1.0",
        "a".to_string(),
        "b".to_string(),
        "c".to_string(),
        "/bin/sh",
    );
    assert!(r.is_none());
}

#[test]
fn gather_lenient_uptime() {
    let info = assemble_system_info(
        OS_RELEASE,
        MEMINFO,
        "garbage",
        "a".to_string(),
        "b".to_string(),
        "c".to_string(),
        "/bin/sh",
    )
    .unwrap();
    assert_eq!(info.uptime_seconds, 0);
    assert_eq!(info.uptime_formatted, "0 seconds");
}

#[test]
fn uptime_counter_with_plus_sign() {
    assert_eq!(parse_uptime_seconds("+5.00 1.00"), 5);
    assert_eq!(parse_uptime_seconds("+.00 1.00"), 0);
    assert_eq!(parse_uptime_seconds("++5.00 1.00"), 0);
    let u = get_uptime("+65.00 1.00");
    assert_eq!((u.seconds, u.minutes), (65, 1));
}

#[test]
fn stat_amount_with_plus_sign() {
    assert_eq!(minf_get_kb("MemTotal: +5 kB\n", "MemTotal"), Some(5));
    assert_eq!(minf_get_kb("MemTotal: + kB\n", "MemTotal"), None);
    assert_eq!(minf_get_kb("MemTotal: -5 kB\n", "MemTotal"), None);
}

#[test]
fn unsigned_helper() {
    let cs = chars_of("+42");
    assert_eq!(parse_unsigned(&cs, 0, 3), Some(42));
    assert_eq!(parse_unsigned(&cs, 0, 1), None);
    assert_eq!(parse_unsigned(&cs, 1, 3), Some(42));
}
