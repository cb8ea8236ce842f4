use ws_ckpt::retention::{
    default_auto_cleanup_keep, format_retention, parse_cleanup_retention, parse_duration_secs,
    CleanupRetention, RetentionJson,
};
use ws_ckpt::text::{decimal_text, parse_number, trim};

#[test]
fn parse_duration_accepts_units() {
    assert_eq!(parse_duration_secs("30s").unwrap(), 30);
    assert_eq!(parse_duration_secs("5m").unwrap(), 300);
    assert_eq!(parse_duration_secs("2h").unwrap(), 7200);
    assert_eq!(parse_duration_secs("30d").unwrap(), 2_592_000);
    assert_eq!(parse_duration_secs("2w").unwrap(), 1_209_600);
}

#[test]
fn parse_duration_rejects_bad_input() {
    assert!(parse_duration_secs("").is_err());
    assert!(parse_duration_secs("30").is_err()); // missing unit
    assert!(parse_duration_secs("abc").is_err());
    assert!(parse_duration_secs("30y").is_err()); // year not supported
}

#[test]
fn parse_duration_rejects_i64_overflow() {
    let huge = format!("{}w", u64::MAX);
    assert!(parse_duration_secs(&huge).is_err());
}

#[test]
fn duration_messages_and_edges() {
    assert_eq!(parse_duration_secs(" \u{3000}2W\t").unwrap(), 1_209_600);
    assert_eq!(parse_duration_secs("+7d").unwrap(), 604_800);
    assert_eq!(parse_duration_secs("9223372036854775807s").unwrap(), i64::MAX as u64);
    assert_eq!(parse_duration_secs("  ").unwrap_err(), "empty duration");
    assert_eq!(
        parse_duration_secs("30").unwrap_err(),
        "duration '30' missing unit suffix (s/m/h/d/w)"
    );
    assert_eq!(
        parse_duration_secs("-1d").unwrap_err(),
        "duration '-1d': invalid number '-1'"
    );
    assert_eq!(
        parse_duration_secs("30Y").unwrap_err(),
        "duration '30Y': invalid unit 'y' (expected s/m/h/d/w)"
    );
    assert_eq!(
        parse_duration_secs("9223372036854775808s").unwrap_err(),
        format!(
            "duration '9223372036854775808s' too large (max supported is {} seconds \u{2248} {} years)",
            i64::MAX,
            i64::MAX / (365 * 86400)
        )
    );
}

#[test]
fn white_space_is_what_char_says() {
    for n in 0..=0x10ffffu32 {
        if let Some(c) = char::from_u32(n) {
            let s = format!("{c}x{c}");
            assert_eq!(trim(&s) == "x", c.is_whitespace(), "{n:x}");
        }
    }
}

#[test]
fn numbers_are_written_and_read_as_by_the_standard_library() {
    for n in [0u64, 9, 10, 99, 100, 4096, u64::MAX] {
        assert_eq!(decimal_text(n), n.to_string());
        assert_eq!(parse_number(&n.to_string(), u64::MAX), Some(n));
    }
    for s in ["", "+", "-1", "1x", "18446744073709551616", "+5", "007"] {
        assert_eq!(parse_number(s, u64::MAX), s.parse::<u64>().ok(), "{s}");
    }
    assert_eq!(parse_number("4294967296", u32::MAX as u64), None);
    assert_eq!(parse_number("3", 2), None);
    assert_eq!(parse_number("0", 0), Some(0));
}

#[test]
fn retention_from_configuration_values() {
    assert_eq!(CleanupRetention::from_unsigned(20), Ok(CleanupRetention::Count(20)));
    assert_eq!(
        CleanupRetention::from_unsigned(4_294_967_296),
        Err("auto_cleanup_keep count 4294967296 exceeds u32::MAX".to_string())
    );
    assert_eq!(CleanupRetention::from_signed(0), Ok(CleanupRetention::Count(0)));
    assert_eq!(
        CleanupRetention::from_signed(-5),
        Err("auto_cleanup_keep count -5 out of u32 range".to_string())
    );
    assert_eq!(
        CleanupRetention::from_signed(i64::MIN),
        Err(format!("auto_cleanup_keep count {} out of u32 range", i64::MIN))
    );
    assert_eq!(
        CleanupRetention::from_text("30d"),
        Ok(CleanupRetention::Age { raw: "30d".to_string(), secs: 2_592_000 })
    );
    assert_eq!(
        CleanupRetention::from_text("30"),
        Err("auto_cleanup_keep age mode: duration '30' missing unit suffix (s/m/h/d/w)".to_string())
    );
}

#[test]
fn retention_disables_at_zero() {
    assert!(CleanupRetention::Count(0).is_disabled());
    assert!(!CleanupRetention::Count(1).is_disabled());
    assert!(CleanupRetention::age("0d").unwrap().is_disabled());
    assert!(!CleanupRetention::age("1s").unwrap().is_disabled());
    assert_eq!(default_auto_cleanup_keep(), CleanupRetention::Count(20));
}

#[test]
fn retention_is_displayed() {
    assert_eq!(format_retention(&CleanupRetention::Count(7)), "7");
    assert_eq!(CleanupRetention::age("30d").unwrap().to_text(), "\"30d\"");
    assert_eq!(
        RetentionJson::from(&CleanupRetention::age("2w").unwrap()),
        RetentionJson::Age { raw: "2w".to_string(), secs: 1_209_600 }
    );
    assert_eq!(
        RetentionJson::from(&CleanupRetention::Count(3)),
        RetentionJson::Count { count: 3 }
    );
}

#[test]
fn parse_config_auto_cleanup_keep_count() {
    assert_eq!(parse_cleanup_retention("20"), Ok(CleanupRetention::Count(20)));
}

#[test]
fn parse_config_auto_cleanup_keep_zero_disables() {
    let keep = parse_cleanup_retention("0").expect("keep should be set");
    assert!(keep.is_disabled());
    assert_eq!(keep, CleanupRetention::Count(0));
}

#[test]
fn parse_config_auto_cleanup_keep_age() {
    match parse_cleanup_retention("30d") {
        Ok(CleanupRetention::Age { raw, secs }) => {
            assert_eq!(raw, "30d");
            assert_eq!(secs, 30 * 24 * 3600);
        }
        other => panic!("expected Age variant, got {:?}", other),
    }
}

#[test]
fn parse_config_auto_cleanup_keep_invalid() {
    let result = parse_cleanup_retention("abc");
    assert!(
        result.is_err(),
        "non-numeric value without duration unit should be rejected"
    );
    assert_eq!(
        result.unwrap_err(),
        "invalid value 'abc': duration 'abc': invalid number 'ab'"
    );
}
