use procmon::order::{cpu_rank_of, text_le};
use procmon::text::{decimal_string, mem_human_readable, GIB, KIB, MIB, TIB};

/// The formatting the process table uses, written with floats as the
/// monitor's screen code writes it.
fn reference_human_readable(bytes: u64) -> String {
    if bytes < 10240 {
        return format!("{bytes}");
    }
    if bytes < 1024 * 1024 * 10 {
        return format!("{}K", bytes / 1024);
    }
    if bytes < 1024 * 1024 * 1024 * 10 {
        return format!("{}M", bytes / (1024 * 1024));
    }
    if bytes < 1024 * 1024 * 1024 * 1024 * 10 {
        return format!("{:.1}G", bytes as f64 / (1024 * 1024 * 1024) as f64);
    }
    format!("{}T", bytes / (1024 * 1024 * 1024 * 1024))
}

#[test]
fn decimal_of_small_and_large_numbers() {
    assert_eq!(decimal_string(0), "0");
    assert_eq!(decimal_string(7), "7");
    assert_eq!(decimal_string(10), "10");
    assert_eq!(decimal_string(4096), "4096");
    assert_eq!(decimal_string(u64::MAX), "18446744073709551615");
}

#[test]
fn human_readable_bytes_below_threshold() {
    assert_eq!(mem_human_readable(0), "0");
    assert_eq!(mem_human_readable(512), "512");
    assert_eq!(mem_human_readable(10239), "10239");
}

#[test]
fn human_readable_kib_mib_tib() {
    assert_eq!(mem_human_readable(10240), "10K");
    assert_eq!(mem_human_readable(10 * MIB - 1), "10239K");
    assert_eq!(mem_human_readable(10 * MIB), "10M");
    assert_eq!(mem_human_readable(10 * GIB - 1), "10239M");
    assert_eq!(mem_human_readable(10 * TIB), "10T");
    assert_eq!(mem_human_readable(u64::MAX), "16777215T");
    assert_eq!(mem_human_readable(3 * KIB * 5000), "14M");
    assert_eq!(mem_human_readable(3 * KIB * 3000), "9000K");
}

#[test]
fn human_readable_gib_with_one_decimal() {
    assert_eq!(mem_human_readable(10 * GIB), "10.0G");
    assert_eq!(mem_human_readable(16 * GIB + GIB / 2), "16.5G");
    assert_eq!(mem_human_readable(10 * TIB - 1), "10240.0G");
}

#[test]
fn human_readable_gib_ties_match_float_formatting() {
    // 41 * 2^28 bytes is exactly 10.25 GiB, a tie at one decimal.
    for m in [41u64, 43, 45, 47, 99, 101, 1001, 4001, 40959] {
        let bytes = m << 28;
        assert_eq!(mem_human_readable(bytes), reference_human_readable(bytes), "bytes {bytes}");
    }
}

#[test]
fn human_readable_matches_float_formatting_on_many_values() {
    let mut bytes: u64 = 1;
    while bytes < u64::MAX / 3 {
        for delta in [0u64, 1, 7, 1023] {
            let b = bytes + delta;
            assert_eq!(mem_human_readable(b), reference_human_readable(b), "bytes {b}");
        }
        bytes = bytes * 3 + 11;
    }
    let mut b = 10 * GIB;
    while b < 10 * TIB {
        assert_eq!(mem_human_readable(b), reference_human_readable(b), "bytes {b}");
        b += 987_654_321_123;
    }
}

#[test]
fn text_order_is_lexicographic() {
    let s = |x: &str| x.to_string();
    assert!(text_le(&s("abc"), &s("abd")));
    assert!(!text_le(&s("abd"), &s("abc")));
    assert!(text_le(&s("ab"), &s("abc")));
    assert!(!text_le(&s("abc"), &s("ab")));
    assert!(text_le(&s(""), &s("")));
    assert!(text_le(&s("Zeta"), &s("alpha")));
    assert!(text_le(&s("root"), &s("root")));
    for (a, b) in [("é", "z"), ("z", "é"), ("aé", "aè"), ("日本", "日本語"), ("x", "")] {
        assert_eq!(text_le(&s(a), &s(b)), a <= b, "{a} {b}");
    }
}

#[test]
fn cpu_rank_follows_total_order_of_floats() {
    let values = [
        -f32::INFINITY,
        -3.5,
        -0.0,
        0.0,
        0.25,
        12.5,
        99.9,
        f32::INFINITY,
        f32::NAN,
        -f32::NAN,
        f32::MIN_POSITIVE,
    ];
    for a in values {
        for b in values {
            let by_rank = cpu_rank_of(a.to_bits()).cmp(&cpu_rank_of(b.to_bits()));
            assert_eq!(by_rank, a.total_cmp(&b), "{a} {b}");
        }
    }
}
