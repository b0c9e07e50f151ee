use tg_unblock::text::log_line;
use tg_unblock::units::fmt_bytes;

fn in_floating_point(b: u64) -> String {
    if b < 1024 {
        format!("{}B", b)
    } else if b < 1024 * 1024 {
        format!("{:.1}KB", b as f64 / 1024.0)
    } else {
        format!("{:.1}MB", b as f64 / (1024.0 * 1024.0))
    }
}

#[test]
fn amounts_by_value() {
    assert_eq!(fmt_bytes(0), "0B");
    assert_eq!(fmt_bytes(64), "64B");
    assert_eq!(fmt_bytes(1023), "1023B");
    assert_eq!(fmt_bytes(1024), "1.0KB");
    assert_eq!(fmt_bytes(1536), "1.5KB");
    assert_eq!(fmt_bytes(1280), "1.2KB");
    assert_eq!(fmt_bytes(1792), "1.8KB");
    assert_eq!(fmt_bytes(1024 * 1024 - 1), "1024.0KB");
    assert_eq!(fmt_bytes(1024 * 1024), "1.0MB");
    assert_eq!(fmt_bytes(5 * 1024 * 1024 + 512 * 1024), "5.5MB");
    assert_eq!(fmt_bytes(u64::MAX), "17592186044416.0MB");
}

#[test]
fn amounts_as_in_floating_point() {
    for b in 0..4_000_000u64 {
        if b < 200_000 || b % 37 == 0 {
            assert_eq!(fmt_bytes(b), in_floating_point(b));
        }
    }
    for shift in 20..64 {
        for delta in 0..3000u64 {
            let base = 1u64 << shift;
            for b in [base.wrapping_add(delta), base - delta] {
                assert_eq!(fmt_bytes(b), in_floating_point(b), "{}", b);
            }
        }
    }
    let mut x = 0x9e37_79b9_7f4a_7c15u64;
    for _ in 0..200_000 {
        x = x.wrapping_mul(6364136223846793005).wrapping_add(1442695040888963407);
        for b in [x, x >> 5, x >> 11, x >> 20] {
            assert_eq!(fmt_bytes(b), in_floating_point(b), "{}", b);
        }
    }
}

#[test]
fn amounts_are_shown_within_half_a_tenth() {
    for b in (1024..1024 * 1024).step_by(613) {
        let shown: f64 = fmt_bytes(b).trim_end_matches("KB").parse().unwrap();
        assert!((shown - b as f64 / 1024.0).abs() <= 0.05 + 1e-9, "{}", b);
    }
}

#[test]
fn lines_of_the_log() {
    assert_eq!(log_line("12:34:56.789", "#1 closed"), "[12:34:56.789] #1 closed\n");
}
