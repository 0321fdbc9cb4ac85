use kunz_presence_display::logic::{
    build_telegram_json, format_date_from_ms, format_elapsed, format_time_from_ms, json_escape,
    parse_form_urlencoded, unix_to_date, url_decode,
};

// ── calendar ───────────────────────────────────────────────────

#[test]
fn next_day_after_leap_day() {
    assert_eq!(unix_to_date(1_709_164_800), (29, 2, 2024));
    assert_eq!(unix_to_date(1_709_164_800 + 86_400), (1, 3, 2024));
}

#[test]
fn next_day_after_new_years_eve() {
    assert_eq!(unix_to_date(1_703_980_800), (31, 12, 2023));
    assert_eq!(unix_to_date(1_703_980_800 + 86_400), (1, 1, 2024));
}

#[test]
fn year_2100_is_not_leap() {
    assert_eq!(unix_to_date(4_107_456_000), (28, 2, 2100));
    assert_eq!(unix_to_date(4_107_456_000 + 86_400), (1, 3, 2100));
}

#[test]
fn date_depends_on_whole_days_only() {
    assert_eq!(unix_to_date(1_700_000_000 - 1_700_000_000 % 86_400), unix_to_date(1_700_000_000));
    assert_eq!(unix_to_date(86_399), (1, 1, 1970));
}

#[test]
fn date_of_largest_timestamp_keeps_year_modulo_2_pow_32() {
    assert_eq!(unix_to_date(u64::MAX), (9, 11, 438_498_967));
}

#[test]
fn date_str_five_digit_year() {
    assert_eq!(format_date_from_ms(253_402_300_800 * 1_000), "01 Jan 10000");
}

#[test]
fn date_str_every_month_name() {
    let expected = [
        "Jan", "Feb", "Mar", "Apr", "May", "Jun", "Jul", "Aug", "Sep", "Oct", "Nov", "Dec",
    ];
    // 15th of each month of 2023
    let days_before = [0u64, 31, 59, 90, 120, 151, 181, 212, 243, 273, 304, 334];
    for (i, name) in expected.iter().enumerate() {
        let day = 19_358 + days_before[i] + 14; // 2023-01-01 is day 19358
        let text = format_date_from_ms(day * 86_400_000);
        assert_eq!(text, format!("15 {} 2023", name));
    }
}

// ── clock ──────────────────────────────────────────────────────

#[test]
fn clock_repeats_daily() {
    let ms = 12_345_678;
    assert_eq!(format_time_from_ms(ms + 86_400_000), format_time_from_ms(ms));
    assert_eq!(format_time_from_ms(ms), "03:25:45");
}

#[test]
fn clock_is_always_eight_characters() {
    for ms in [0u64, 999, 59_999, 86_399_999, u64::MAX] {
        assert_eq!(format_time_from_ms(ms).len(), 8);
    }
    assert_eq!(format_time_from_ms(86_399_999), "23:59:59");
}

#[test]
fn elapsed_largest_value() {
    // 213503982334601 days, 7 h, 0 min, 15 s
    assert_eq!(format_elapsed(u64::MAX), "213503982334601d 07h 00m 15s");
}

#[test]
fn elapsed_day_count_leads() {
    assert_eq!(format_elapsed(10 * 86_400 + 59), "10d 00h 00m 59s");
    assert_eq!(format_elapsed(23 * 3600 + 59 * 60 + 59), "23h 59m 59s");
}

// ── url / form ─────────────────────────────────────────────────

#[test]
fn url_decode_plain_text_is_unchanged() {
    assert_eq!(url_decode("Grüße aus Köln"), "Grüße aus Köln");
}

#[test]
fn url_decode_full_percent_encoding() {
    assert_eq!(url_decode("%48%65%6c%6C%6F"), "Hello");
    assert_eq!(url_decode("%f0%9F%9f%A2%2B%25"), "🟢+%");
}

#[test]
fn url_decode_upper_and_lower_hex() {
    assert_eq!(url_decode("%4a%4A"), "JJ");
}

#[test]
fn url_decode_invalid_utf8_is_replaced() {
    assert_eq!(url_decode("a%FFb"), "a\u{FFFD}b");
}

#[test]
fn url_decode_percent_needs_two_following_bytes() {
    assert_eq!(url_decode("%4"), "%4");
    assert_eq!(url_decode("%%41"), "%A");
}

#[test]
fn form_empty_key_is_skipped() {
    let pairs = parse_form_urlencoded(b"=v&k=1");
    assert_eq!(pairs, vec![("k".to_string(), "1".to_string())]);
}

#[test]
fn form_value_keeps_later_equals_signs() {
    let pairs = parse_form_urlencoded(b"a=b=c");
    assert_eq!(pairs, vec![("a".to_string(), "b=c".to_string())]);
}

#[test]
fn form_encoded_separators_stay_in_values() {
    let pairs = parse_form_urlencoded(b"q=1%262&r=%3D");
    assert_eq!(
        pairs,
        vec![("q".to_string(), "1&2".to_string()), ("r".to_string(), "=".to_string())]
    );
}

#[test]
fn form_invalid_utf8_body_is_replaced() {
    let pairs = parse_form_urlencoded(b"k=\xff");
    assert_eq!(pairs, vec![("k".to_string(), "\u{FFFD}".to_string())]);
}

#[test]
fn form_trailing_ampersand() {
    let pairs = parse_form_urlencoded(b"a=1&&");
    assert_eq!(pairs, vec![("a".to_string(), "1".to_string())]);
}

// ── json ───────────────────────────────────────────────────────

#[test]
fn escape_all_special_characters() {
    assert_eq!(json_escape("\"\\\n\r\t"), "\\\"\\\\\\n\\r\\t");
}

#[test]
fn escape_leaves_other_control_characters() {
    // Only the five escapes are written; other control characters pass.
    assert_eq!(json_escape("a\u{1}b"), "a\u{1}b");
}

#[test]
fn telegram_json_chat_id_is_not_escaped() {
    assert_eq!(
        build_telegram_json("a\"b", "x\ny"),
        "{\"chat_id\":\"a\"b\",\"text\":\"x\\ny\"}"
    );
}
