use subtitle_watcher::timing::Timing;

fn parse(s: &str) -> Option<Timing> {
    Timing::from_string_fmtd(s.to_string())
}

fn format(ms: u128) -> String {
    Timing::from_u128_ms(ms).to_string_formatted()
}

#[test]
fn format_zero() {
    assert_eq!(format(0), "00:00:00:000");
}

#[test]
fn format_pads_each_field() {
    assert_eq!(format(3_723_004), "01:02:03:004");
    assert_eq!(format(359_999_999), "99:59:59:999");
    assert_eq!(format(45_296_789), "12:34:56:789");
}

#[test]
fn format_hours_grow_beyond_two_digits() {
    assert_eq!(format(360_000_000), "100:00:00:000");
    assert_eq!(
        format(u128::MAX),
        "94522879700260684295381835397713:23:31:455"
    );
}

#[test]
fn format_of_unbounded_fields() {
    let t = Timing { hh: 7, mm: 123, ss: 5, ms: 12345 };
    assert_eq!(t.to_string_formatted(), "07:123:05:12345");
}

#[test]
fn from_ms_splits_by_division() {
    assert_eq!(
        Timing::from_u128_ms(3_723_004),
        Timing { hh: 1, mm: 2, ss: 3, ms: 4 }
    );
    assert_eq!(
        Timing::from_u128_ms(59_999),
        Timing { hh: 0, mm: 0, ss: 59, ms: 999 }
    );
    assert_eq!(
        Timing::from_u128_ms(3_600_000),
        Timing { hh: 1, mm: 0, ss: 0, ms: 0 }
    );
}

#[test]
fn parse_rejects_out_of_range_fields() {
    assert_eq!(parse("00:00:60:000"), None);
    assert_eq!(parse("00:60:00:000"), None);
    assert_eq!(parse("00:00:00:1000"), None);
}

#[test]
fn parse_accepts_largest_fields() {
    assert_eq!(
        parse("00:59:59:999"),
        Some(Timing { hh: 0, mm: 59, ss: 59, ms: 999 })
    );
}

#[test]
fn parse_short_fields() {
    let t = parse("1:2:3:4").unwrap();
    assert_eq!(t, Timing { hh: 1, mm: 2, ss: 3, ms: 4 });
    assert_eq!(t.to_u128_ms(), 3_723_004);
    assert_eq!(t.to_u128_ms(), 1 * 3_600_000 + 2 * 60_000 + 3 * 1_000 + 4);
}

#[test]
fn parse_wants_exactly_four_fields() {
    assert_eq!(parse(""), None);
    assert_eq!(parse("1"), None);
    assert_eq!(parse("1:2:3"), None);
    assert_eq!(parse("1:2:3:4:5"), None);
    assert_eq!(parse("1:2:3:4:"), None);
    assert_eq!(parse(":1:2:3:4"), None);
}

#[test]
fn parse_rejects_non_numeric_fields() {
    assert_eq!(parse("a:2:3:4"), None);
    assert_eq!(parse("1:2:x:3:4"), None);
    assert_eq!(parse("1::3:4"), None);
    assert_eq!(parse("1:2:3:"), None);
    assert_eq!(parse("-1:2:3:4"), None);
    assert_eq!(parse(" 1:2:3:4"), None);
    assert_eq!(parse("1:2:3:4 "), None);
    assert_eq!(parse("1:2:3:0x4"), None);
    assert_eq!(parse("1:2:3:+"), None);
    assert_eq!(parse("1:2:3:4+"), None);
    assert_eq!(parse("1:2:3:\u{0664}"), None);
}

#[test]
fn parse_accepts_plus_sign_and_leading_zeros() {
    assert_eq!(
        parse("+1:+2:+3:+4"),
        Some(Timing { hh: 1, mm: 2, ss: 3, ms: 4 })
    );
    assert_eq!(
        parse("0001:0002:0003:0004"),
        Some(Timing { hh: 1, mm: 2, ss: 3, ms: 4 })
    );
}

#[test]
fn parse_hours_have_no_bound_but_the_machine() {
    let t = parse("340282366920938463463374607431768211455:0:0:0").unwrap();
    assert_eq!(t.hh, u128::MAX);
    assert_eq!(t.checked_to_u128_ms(), None);
    assert_eq!(parse("340282366920938463463374607431768211456:0:0:0"), None);
    assert_eq!(parse("1000:00:00:000").unwrap().hh, 1000);
}

#[test]
fn checked_total_is_exact_at_the_edge() {
    let hh = u128::MAX / 3_600_000;
    let rest = u128::MAX % 3_600_000;
    let t = Timing::from_u128_ms(u128::MAX);
    assert_eq!(t.hh, hh);
    assert_eq!(t.checked_to_u128_ms(), Some(u128::MAX));
    assert_eq!(rest, 1_411_455);
    let over = Timing { hh, mm: 23, ss: 31, ms: 456 };
    assert_eq!(over.checked_to_u128_ms(), None);
    let t = Timing { hh: 1, mm: 2, ss: 3, ms: 4 };
    assert_eq!(t.checked_to_u128_ms(), Some(3_723_004));
}

#[test]
fn round_trip_over_samples() {
    let samples: [u128; 12] = [
        0,
        1,
        999,
        1_000,
        59_999,
        60_000,
        3_599_999,
        3_600_000,
        3_723_004,
        86_399_999,
        359_999_999,
        360_000_000,
    ];
    for ms in samples {
        let text = format(ms);
        let back = parse(&text).unwrap();
        assert_eq!(back.to_u128_ms(), ms);
        assert_eq!(back, Timing::from_u128_ms(ms));
    }
}

#[test]
fn round_trip_over_a_stride() {
    let mut ms: u128 = 0;
    while ms <= 359_999_999 {
        let back = parse(&format(ms)).unwrap();
        assert_eq!(back.to_u128_ms(), ms);
        ms += 1_234_567;
    }
}

#[test]
fn from_plain_milliseconds() {
    assert_eq!(
        Timing::_from_string_ms("3723004".to_string()),
        Some(Timing { hh: 1, mm: 2, ss: 3, ms: 4 })
    );
    assert_eq!(
        Timing::_from_string_ms("+0".to_string()),
        Some(Timing { hh: 0, mm: 0, ss: 0, ms: 0 })
    );
    assert_eq!(Timing::_from_string_ms("abc".to_string()), None);
    assert_eq!(Timing::_from_string_ms("".to_string()), None);
    assert_eq!(Timing::_from_string_ms("12:3".to_string()), None);
    assert_eq!(
        Timing::_from_string_ms("340282366920938463463374607431768211456".to_string()),
        None
    );
}

#[test]
fn parse_agrees_with_the_standard_number_reader() {
    let fields = ["0", "7", "+7", "007", "", "+", "-7", "7a", "59", "٣", "1_0"];
    for f in fields {
        let text = format!("{}:0:0:0", f);
        let expected = f.parse::<u128>().ok();
        assert_eq!(parse(&text).map(|t| t.hh), expected);
    }
}
