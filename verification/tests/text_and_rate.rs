use ext_cardano_dbsync::rate::Rate;
use ext_cardano_dbsync::text::{chars_of, parse_u64, slice_of, split, u64_to_string};

#[test]
fn chars_are_read_in_order() {
    assert_eq!(chars_of("a.prj-é"), vec!['a', '.', 'p', 'r', 'j', '-', 'é']);
    assert_eq!(chars_of(""), Vec::<char>::new());
}

#[test]
fn slices_are_cut_by_character_positions() {
    assert_eq!(slice_of("héllo", 1, 3), "él");
    assert_eq!(slice_of("abc", 3, 3), "");
}

#[test]
fn split_keeps_empty_pieces() {
    assert_eq!(split("a,b", ','), vec!["a".to_string(), "b".to_string()]);
    assert_eq!(split("", ','), vec!["".to_string()]);
    assert_eq!(split("a,", ','), vec!["a".to_string(), "".to_string()]);
    assert_eq!(split(",a,,b", ','), vec!["", "a", "", "b"]);
    assert_eq!(split("mainnet=db", '='), vec!["mainnet", "db"]);
    assert_eq!(split("no separator", '='), vec!["no separator"]);
}

#[test]
fn numerals_are_written_without_leading_zeros() {
    assert_eq!(u64_to_string(0), "0");
    assert_eq!(u64_to_string(7), "7");
    assert_eq!(u64_to_string(12000), "12000");
    assert_eq!(u64_to_string(u64::MAX), "18446744073709551615");
}

#[test]
fn numerals_are_read_as_std_reads_them() {
    for text in [
        "0",
        "7",
        "+7",
        "007",
        "12000",
        "18446744073709551615",
        "18446744073709551616",
        "99999999999999999999999",
        "",
        "+",
        "-1",
        "1 ",
        " 1",
        "1.5",
        "abc",
        "++1",
    ] {
        assert_eq!(parse_u64(text), text.parse::<u64>().ok(), "for {:?}", text);
    }
}

#[test]
fn written_numerals_read_back() {
    for n in [0u64, 1, 9, 10, 99, 100, 12345, u64::MAX - 1, u64::MAX] {
        assert_eq!(parse_u64(&u64_to_string(n)), Some(n));
    }
}

#[test]
fn rates_are_read_as_exact_fractions() {
    assert_eq!(Rate::parse("5"), Some(Rate { numerator: 5, denominator: 1 }));
    assert_eq!(Rate::parse("5.0"), Some(Rate { numerator: 50, denominator: 10 }));
    assert_eq!(Rate::parse("0.3333"), Some(Rate { numerator: 3333, denominator: 10000 }));
    assert_eq!(Rate::parse(".5"), Some(Rate { numerator: 5, denominator: 10 }));
    assert_eq!(Rate::parse("5."), Some(Rate { numerator: 5, denominator: 1 }));
    assert_eq!(Rate::parse("+1.25"), Some(Rate { numerator: 125, denominator: 100 }));
    assert_eq!(Rate::parse("0"), Some(Rate { numerator: 0, denominator: 1 }));
}

#[test]
fn malformed_rates_are_refused() {
    for text in ["", ".", "+", "-1", "1e3", "1.2.3", "abc", "1,5", " 1", "inf", "NaN"] {
        assert_eq!(Rate::parse(text), None, "for {:?}", text);
    }
    // Twenty digits after the point, and a digit string beyond 64 bits.
    assert_eq!(Rate::parse("0.00000000000000000001"), None);
    assert_eq!(Rate::parse("18446744073709551616"), None);
    assert!(Rate::parse("0.0000000000000000001").is_some());
}

#[test]
fn a_rate_needs_a_denominator() {
    assert_eq!(Rate::new(1, 0), None);
    assert_eq!(Rate::new(1, 3), Some(Rate { numerator: 1, denominator: 3 }));
}

#[test]
fn ceiling_rounding_never_gives_zero() {
    let rate = Rate::parse("0.3333").unwrap();
    assert_eq!(rate.consumption(1500), 1);
}

#[test]
fn consumption_is_the_rounded_up_product() {
    let five = Rate::parse("5.0").unwrap();
    assert_eq!(five.consumption(3000), 15);
    assert_eq!(five.consumption(3001), 16);
    assert_eq!(five.consumption(1), 1);
    assert_eq!(five.consumption(200), 1);
    assert_eq!(five.consumption(201), 2);
    assert_eq!(five.consumption(0), 0);
    let third = Rate::new(1, 3).unwrap();
    assert_eq!(third.consumption(3000), 1);
    assert_eq!(third.consumption(3001), 2);
    assert_eq!(third.consumption(9000), 3);
    let none = Rate::parse("0").unwrap();
    assert_eq!(none.consumption(1_000_000), 0);
}

#[test]
fn consumption_is_capped_at_the_largest_count() {
    let huge = Rate::new(u64::MAX, 1).unwrap();
    assert_eq!(huge.consumption(u64::MAX), u64::MAX);
    assert_eq!(huge.consumption(1000), u64::MAX);
    assert_eq!(huge.consumption(1001), u64::MAX);
    assert_eq!(huge.consumption(999), 18428297329635842064);
    let one = Rate::new(1, 1).unwrap();
    assert_eq!(one.consumption(u64::MAX), u64::MAX / 1000 + 1);
}

#[test]
fn rounding_is_never_below_the_exact_product() {
    for (delta, numerator, denominator) in
        [(1500u64, 3333u64, 10000u64), (1, 1, 1000), (999, 7, 3), (123456, 5, 1), (1000, 1, 1)]
    {
        let rate = Rate::new(numerator, denominator).unwrap();
        let units = rate.consumption(delta) as u128;
        let exact = delta as u128 * numerator as u128;
        let per_unit = 1000u128 * denominator as u128;
        assert!(units * per_unit >= exact);
        assert!(units == 0 || (units - 1) * per_unit < exact);
    }
}
