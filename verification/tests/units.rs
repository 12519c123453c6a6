use smolofis_panel::double::{round_quotient, round_to_double};
use smolofis_panel::units::{fmt_gib, fmt_uptime, pct};

fn float_pct(used: u64, total: u64) -> u8 {
    if total == 0 {
        return 0;
    }
    ((used as f64 / total as f64) * 100.0)
        .round()
        .clamp(0.0, 100.0) as u8
}

fn float_gib(bytes: u64) -> String {
    format!("{:.1}", bytes as f64 / 1_073_741_824.0)
}

/// A fixed sequence of numbers of all sizes.
fn numbers(count: usize) -> Vec<u64> {
    let mut state = 0x9e37_79b9_7f4a_7c15u64;
    let mut r = Vec::new();
    for _ in 0..count {
        state ^= state << 13;
        state ^= state >> 7;
        state ^= state << 17;
        r.push(state >> (state % 64));
    }
    r
}

#[test]
fn pct_of_nothing_is_zero() {
    assert_eq!(pct(0, 0), 0);
    assert_eq!(pct(17, 0), 0);
    assert_eq!(pct(0, 17), 0);
}

#[test]
fn pct_rounds_and_clamps() {
    assert_eq!(pct(1, 3), 33);
    assert_eq!(pct(2, 3), 67);
    assert_eq!(pct(1, 200), 1);
    assert_eq!(pct(29, 200), 14);
    assert_eq!(pct(17, 17), 100);
    assert_eq!(pct(18, 17), 100);
    assert_eq!(pct(u64::MAX, 1), 100);
    assert_eq!(pct(1, u64::MAX), 0);
}

#[test]
fn pct_is_that_of_double_precision() {
    for total in 0..400 {
        for used in 0..=total + 2 {
            assert_eq!(pct(used, total), float_pct(used, total), "{used} {total}");
        }
    }
    let numbers = numbers(3000);
    for pair in numbers.windows(2) {
        assert_eq!(pct(pair[0], pair[1]), float_pct(pair[0], pair[1]));
        let used = pair[0] % (pair[1] | 1);
        assert_eq!(pct(used, pair[1] | 1), float_pct(used, pair[1] | 1));
    }
    for k in 0..200u64 {
        let total = u64::MAX - k * 977;
        let used = total / 200 * k + k;
        assert_eq!(pct(used, total), float_pct(used, total));
    }
}

#[test]
fn pct_never_falls_when_more_is_used() {
    let mut last = 0;
    for used in 0..=1000 {
        let p = pct(used, 777);
        assert!(last <= p);
        last = p;
    }
    assert_eq!(last, 100);
}

#[test]
fn pct_never_grows_with_the_total() {
    let mut last = 100;
    for total in 1..=2000 {
        let p = pct(7, total);
        assert!(p <= last, "{total}");
        last = p;
    }
    assert_eq!(last, 0);
    assert_eq!(pct(7, 0), 0);
}

#[test]
fn pct_is_true_to_half_a_per_cent() {
    for total in [7u64, 200, 12_345, 16 << 30, 1 << 43, (1 << 53) - 1] {
        for k in 0..=50 {
            let used = (total as u128 * k / 50) as u64;
            let shown = 2 * pct(used, total) as i128 * total as i128;
            let exact = 200 * used as i128;
            let slack = if total <= 1 << 43 { 0 } else { 600 };
            assert!((shown - exact).abs() <= total as i128 + slack, "{used} {total}");
        }
    }
}

#[test]
fn fmt_gib_never_falls_and_is_true_to_half_a_tenth() {
    let mut last = 0;
    for k in 0..2000u64 {
        let bytes = k * 12_345_678;
        let tenths: u64 = fmt_gib(bytes).replace('.', "").parse().unwrap();
        assert!(last <= tenths);
        last = tenths;
        let shown = 2 * (tenths as i128) << 30;
        assert!((shown - 20 * bytes as i128).abs() <= 1 << 30, "{bytes}");
    }
}

#[test]
fn fmt_gib_shows_tenths() {
    assert_eq!(fmt_gib(0), "0.0");
    assert_eq!(fmt_gib(1 << 30), "1.0");
    assert_eq!(fmt_gib(3 << 29), "1.5");
    assert_eq!(fmt_gib(1 << 28), "0.2");
    assert_eq!(fmt_gib(3 << 28), "0.8");
    assert_eq!(fmt_gib(16_742_117_376), "15.6");
    assert_eq!(fmt_gib(u64::MAX), "17179869184.0");
}

#[test]
fn fmt_gib_is_that_of_double_precision() {
    for n in numbers(5000) {
        assert_eq!(fmt_gib(n), float_gib(n), "{n}");
    }
    for k in 0..500u64 {
        assert_eq!(fmt_gib(k << 28), float_gib(k << 28));
        assert_eq!(fmt_gib((k << 28) + 1), float_gib((k << 28) + 1));
    }
}

#[test]
fn fmt_uptime_chooses_its_units() {
    assert_eq!(fmt_uptime(0), "0m 0s");
    assert_eq!(fmt_uptime(59), "0m 59s");
    assert_eq!(fmt_uptime(61), "1m 1s");
    assert_eq!(fmt_uptime(3_599), "59m 59s");
    assert_eq!(fmt_uptime(3_600), "1h 0m");
    assert_eq!(fmt_uptime(86_399), "23h 59m");
    assert_eq!(fmt_uptime(86_400), "1d 0h 0m");
    assert_eq!(fmt_uptime(200_000), "2d 7h 33m");
}

#[test]
fn fmt_uptime_tells_seconds_apart_below_an_hour() {
    for secs in 0..3_600 {
        assert_ne!(fmt_uptime(secs), fmt_uptime(secs + 1));
    }
    assert_ne!(fmt_uptime(60), fmt_uptime(3_600));
    for secs in [3_600, 7_140, 86_400, 200_040] {
        assert_eq!(fmt_uptime(secs), fmt_uptime(secs + 59));
        assert_ne!(fmt_uptime(secs), fmt_uptime(secs + 60));
        assert_ne!(fmt_uptime(secs - 1), fmt_uptime(secs));
    }
}

#[test]
fn rounding_to_doubles_is_that_of_the_machine() {
    for n in numbers(5000) {
        assert_eq!(round_to_double(n as u128), (n as f64) as u128);
    }
    assert_eq!(round_to_double(u64::MAX as u128), 1 << 64);
    assert_eq!(round_to_double((1 << 53) + 1), 1 << 53);
    assert_eq!(round_to_double((1 << 53) + 3), (1 << 53) + 4);
}

#[test]
fn quotients_round_to_even() {
    assert_eq!(round_quotient(5, 2), 2);
    assert_eq!(round_quotient(7, 2), 4);
    assert_eq!(round_quotient(8, 3), 3);
    assert_eq!(round_quotient(7, 3), 2);
    assert_eq!(round_quotient(u128::MAX, 1), u128::MAX);
}
