use dockhand::size::{parse_io_stats, parse_memory_usage, parse_size};

#[test]
fn size_binary_multipliers() {
    assert_eq!(parse_size("1GB"), 1073741824);
    assert_eq!(parse_size("1GiB"), 1073741824);
    assert_eq!(parse_size("3MB"), 3 * 1048576);
    assert_eq!(parse_size("100MiB"), 104857600);
    assert_eq!(parse_size("500MiB"), 524288000);
    assert_eq!(parse_size("1KB"), 1024);
    assert_eq!(parse_size("1KiB"), 1024);
    assert_eq!(parse_size("1kB"), 1024);
    assert_eq!(parse_size("2kB"), 2048);
    assert_eq!(parse_size("7"), 7);
    assert_eq!(parse_size("0B"), 0);
}

#[test]
fn size_fractions_truncate() {
    assert_eq!(parse_size("1.2GB"), 1073741824);
    assert_eq!(parse_size("12.9"), 12);
    assert_eq!(parse_size("45.3%"), 45);
    assert_eq!(parse_size(".5"), 0);
}

#[test]
fn size_non_numeric_is_zero() {
    assert_eq!(parse_size(""), 0);
    assert_eq!(parse_size("abc"), 0);
    assert_eq!(parse_size("GB"), 0);
    assert_eq!(parse_size("-5MB"), 0);
    assert_eq!(parse_size("1.2.3"), 0);
    assert_eq!(parse_size("."), 0);
    assert_eq!(parse_size("12a34"), 0);
}

#[test]
fn size_trims_whitespace() {
    assert_eq!(parse_size(" 5MB "), 5 * 1048576);
    assert_eq!(parse_size("\t2kB\n"), 2048);
    assert_eq!(parse_size("\u{a0}3KB\u{3000}"), 3072);
}

#[test]
fn size_saturates_at_max() {
    assert_eq!(parse_size("99999999999999999999GB"), u64::MAX);
    assert_eq!(parse_size("18446744073709551615"), u64::MAX);
}

#[test]
fn memory_usage_pairs() {
    assert_eq!(parse_memory_usage("100MiB / 500MiB"), (104857600, 524288000));
    assert_eq!(parse_memory_usage("0B / 0B"), (0, 0));
    assert_eq!(parse_memory_usage("100MiB"), (0, 0));
    assert_eq!(parse_memory_usage("1kB / 2kB / 3kB"), (0, 0));
}

#[test]
fn io_stats_pairs() {
    assert_eq!(parse_io_stats("1kB / 2kB"), (1024, 2048));
    assert_eq!(parse_io_stats("1.5MB / 2GB"), (1048576, 2147483648));
    assert_eq!(parse_io_stats("garbage"), (0, 0));
}
