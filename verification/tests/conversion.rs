use george_ai::daemon::Daemon;
use george_ai::decimal::Decimal;
use george_ai::strutil::trim_str;
use george_ai::strutil::u64_to_string;

fn whole(n: u8) -> Decimal {
    if n == 100 {
        Decimal { digits: vec![1, 0, 0], scale: 0 }
    } else {
        Decimal { digits: vec![n / 10, n % 10], scale: 0 }
    }
}

#[test]
fn pixel_conversion_center_and_corners() {
    let daemon = Daemon::new("https://doesnotmatter.com");
    let (x, y) = daemon
        .calculate_coordinates((whole(50), whole(50)), 1024, 768)
        .unwrap();
    assert_eq!((x, y), (512, 384));

    let (x0, y0) = daemon
        .calculate_coordinates((whole(0), whole(0)), 1024, 768)
        .unwrap();
    assert_eq!((x0, y0), (0, 0));

    let (x1, y1) = daemon
        .calculate_coordinates((whole(100), whole(100)), 1024, 768)
        .unwrap();
    assert_eq!((x1, y1), (1024, 768));
}

#[test]
fn pixel_conversion_floors_fractions() {
    // 13.0% of 1024 = 133.12 -> 133; 0.6% of 768 = 4.608 -> 4
    let x = Decimal { digits: vec![1, 3, 0], scale: 1 };
    let y = Decimal { digits: vec![0, 6], scale: 1 };
    assert_eq!(x.to_pixel(1024), 133);
    assert_eq!(y.to_pixel(768), 4);
}

#[test]
fn pixel_conversion_is_exact_on_long_fractions() {
    // 99.999999999999999999% of 1000 floors to 999, not 1000
    let d = Decimal {
        digits: vec![9, 9, 9, 9, 9, 9, 9, 9, 9, 9, 9, 9, 9, 9, 9, 9, 9, 9, 9, 9, 9, 9],
        scale: 20,
    };
    assert_eq!(d.to_pixel(1000), 999);
}

#[test]
fn in_range_check_is_exact() {
    let just_over = Decimal { digits: vec![1, 0, 0, 0, 0, 0, 1], scale: 4 };  // 100.0001
    assert!(!just_over.is_at_most_hundred());
    let exactly = Decimal { digits: vec![1, 0, 0, 0], scale: 1 };  // 100.0
    assert!(exactly.is_at_most_hundred());
    let under = Decimal { digits: vec![9, 9, 9] , scale: 1 };  // 99.9
    assert!(under.is_at_most_hundred());
}

#[test]
fn resolve_pixel_runs_the_whole_pipeline() {
    let daemon = Daemon::new("https://doesnotmatter.com");
    let r = daemon
        .resolve_pixel("  the point is at (50, 50) here  ", 1024, 768)
        .unwrap();
    assert_eq!(r, (512, 384));
}

#[test]
fn decimal_rendering_of_numbers() {
    assert_eq!(u64_to_string(0), "0");
    assert_eq!(u64_to_string(42), "42");
    assert_eq!(u64_to_string(10000), "10000");
}

#[test]
fn trim_removes_surrounding_blanks() {
    assert_eq!(trim_str("  a b\t\n"), "a b");
    assert_eq!(trim_str("\u{a0}x\u{3000}"), "x");
    assert_eq!(trim_str("   "), "");
    assert_eq!(trim_str("plain"), "plain");
}
