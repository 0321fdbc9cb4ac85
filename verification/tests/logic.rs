use kunz_presence_display::logic::{
    build_telegram_json, format_date_from_ms, format_elapsed, format_time_from_ms, json_escape,
    parse_form_urlencoded, unix_to_date, url_decode,
};
// ── format_elapsed ─────────────────────────────────────────

#[test]
fn elapsed_zero() {
    assert_eq!(format_elapsed(0), "00m 00s");
}

#[test]
fn elapsed_seconds_only() {
    assert_eq!(format_elapsed(45), "00m 45s");
}

#[test]
fn elapsed_one_minute_thirty() {
    assert_eq!(format_elapsed(90), "01m 30s");
}

#[test]
fn elapsed_exact_hour() {
    assert_eq!(format_elapsed(3600), "1h 00m 00s");
}

#[test]
fn elapsed_hours_minutes_seconds() {
    assert_eq!(format_elapsed(3661), "1h 01m 01s");
}

#[test]
fn elapsed_exact_day() {
    assert_eq!(format_elapsed(86400), "1d 00h 00m 00s");
}

#[test]
fn elapsed_days_hours_minutes_seconds() {
    assert_eq!(format_elapsed(90_061), "1d 01h 01m 01s");
}

#[test]
fn elapsed_multiple_days() {
    // 2 days + 3h + 4m + 5s
    assert_eq!(format_elapsed(2 * 86400 + 3 * 3600 + 4 * 60 + 5), "2d 03h 04m 05s");
}

// ── format_time_from_ms ────────────────────────────────────

#[test]
fn time_midnight() {
    assert_eq!(format_time_from_ms(0), "00:00:00");
}

#[test]
fn time_one_second() {
    assert_eq!(format_time_from_ms(1_000), "00:00:01");
}

#[test]
fn time_one_hour_one_minute_one_second() {
    assert_eq!(format_time_from_ms(3_661_000), "01:01:01");
}

#[test]
fn time_wraps_at_24h() {
    // 25 hours should wrap: 25 % 24 = 1
    assert_eq!(format_time_from_ms(25 * 3_600_000), "01:00:00");
}

// ── unix_to_date ───────────────────────────────────────────

#[test]
fn date_epoch() {
    assert_eq!(unix_to_date(0), (1, 1, 1970));
}

#[test]
fn date_one_day_after_epoch() {
    assert_eq!(unix_to_date(86_400), (2, 1, 1970));
}

#[test]
fn date_last_day_of_jan_1970() {
    assert_eq!(unix_to_date(30 * 86_400), (31, 1, 1970));
}

#[test]
fn date_first_feb_1970() {
    assert_eq!(unix_to_date(31 * 86_400), (1, 2, 1970));
}

#[test]
fn date_leap_day_2000() {
    // 2000-02-29 exists (year 2000 is a leap year)
    // Days from epoch to 2000-02-29:
    //   30 years, various leap years.  Known good: 2000-02-29 = unix 951_782_400
    assert_eq!(unix_to_date(951_782_400), (29, 2, 2000));
}

#[test]
fn date_known_timestamp() {
    // 2023-11-14 22:13:20 UTC = 1_700_000_000
    assert_eq!(unix_to_date(1_700_000_000), (14, 11, 2023));
}

#[test]
fn date_new_year_2025() {
    // 2025-01-01 00:00:00 UTC = 1_735_689_600
    assert_eq!(unix_to_date(1_735_689_600), (1, 1, 2025));
}

// ── format_date_from_ms ────────────────────────────────────

#[test]
fn date_str_epoch() {
    assert_eq!(format_date_from_ms(0), "01 Jan 1970");
}

#[test]
fn date_str_known() {
    assert_eq!(format_date_from_ms(1_700_000_000 * 1_000), "14 Nov 2023");
}

// ── url_decode ─────────────────────────────────────────────

#[test]
fn url_decode_plain() {
    assert_eq!(url_decode("hello"), "hello");
}

#[test]
fn url_decode_plus_as_space() {
    assert_eq!(url_decode("hello+world"), "hello world");
}

#[test]
fn url_decode_percent_space() {
    assert_eq!(url_decode("hello%20world"), "hello world");
}

#[test]
fn url_decode_exclamation() {
    assert_eq!(url_decode("secret%21"), "secret!");
}

#[test]
fn url_decode_mixed() {
    assert_eq!(url_decode("My+Network%21"), "My Network!");
}

#[test]
fn url_decode_utf8_emoji() {
    // 🟢 = U+1F7E2 = UTF-8 F0 9F 9F A2
    assert_eq!(url_decode("%F0%9F%9F%A2"), "🟢");
}

#[test]
fn url_decode_bad_percent_passthrough() {
    // %ZZ is not valid hex — percent sign passes through unchanged
    assert_eq!(url_decode("%ZZfoo"), "%ZZfoo");
}

#[test]
fn url_decode_truncated_percent() {
    // % at end of string — passes through
    assert_eq!(url_decode("foo%"), "foo%");
}

// ── parse_form_urlencoded ──────────────────────────────────

#[test]
fn form_single_pair() {
    let pairs = parse_form_urlencoded(b"key=value");
    assert_eq!(pairs, vec![("key".into(), "value".into())]);
}

#[test]
fn form_two_pairs() {
    let pairs = parse_form_urlencoded(b"a=1&b=2");
    assert_eq!(
        pairs,
        vec![("a".into(), "1".into()), ("b".into(), "2".into())]
    );
}

#[test]
fn form_decoded_values() {
    let pairs = parse_form_urlencoded(b"ssid=My+Network&pass=secret%21");
    assert_eq!(
        pairs,
        vec![
            ("ssid".into(), "My Network".into()),
            ("pass".into(), "secret!".into()),
        ]
    );
}

#[test]
fn form_empty_value() {
    let pairs = parse_form_urlencoded(b"key=");
    assert_eq!(pairs, vec![("key".into(), "".into())]);
}

#[test]
fn form_missing_equals_skipped() {
    // A part with no '=' has an empty key and is filtered out
    let pairs = parse_form_urlencoded(b"noequals&b=2");
    // "noequals" decodes to key="noequals", val="" — actually kept (non-empty key)
    assert_eq!(
        pairs,
        vec![
            ("noequals".into(), "".into()),
            ("b".into(), "2".into()),
        ]
    );
}

#[test]
fn form_emoji_in_value() {
    // Emoji UTF-8 percent-encoded in the value
    let pairs = parse_form_urlencoded(b"msg=%F0%9F%9F%A2+open");
    assert_eq!(pairs, vec![("msg".into(), "🟢 open".into())]);
}

#[test]
fn form_empty_body() {
    assert!(parse_form_urlencoded(b"").is_empty());
}

// ── json_escape ────────────────────────────────────────────

#[test]
fn escape_plain() {
    assert_eq!(json_escape("hello"), "hello");
}

#[test]
fn escape_double_quote() {
    assert_eq!(json_escape(r#"say "hi""#), r#"say \"hi\""#);
}

#[test]
fn escape_backslash() {
    assert_eq!(json_escape(r"back\slash"), r"back\\slash");
}

#[test]
fn escape_newline() {
    assert_eq!(json_escape("line\nbreak"), r"line\nbreak");
}

#[test]
fn escape_tab() {
    assert_eq!(json_escape("col\there"), r"col\there");
}

#[test]
fn escape_carriage_return() {
    assert_eq!(json_escape("a\rb"), r"a\rb");
}

#[test]
fn escape_emoji_unchanged() {
    // Emoji are valid UTF-8 and need no escaping in JSON
    assert_eq!(json_escape("open 🟢"), "open 🟢");
}

#[test]
fn escape_empty() {
    assert_eq!(json_escape(""), "");
}

// ── build_telegram_json ────────────────────────────────────

#[test]
fn telegram_json_simple() {
    assert_eq!(
        build_telegram_json("12345", "hello world"),
        r#"{"chat_id":"12345","text":"hello world"}"#
    );
}

#[test]
fn telegram_json_escaped_text() {
    assert_eq!(
        build_telegram_json("99", r#"say "hi""#),
        r#"{"chat_id":"99","text":"say \"hi\""}"#
    );
}

#[test]
fn telegram_json_emoji() {
    let j = build_telegram_json("-100123", "Place is now open! 🟢");
    assert!(j.contains("Place is now open! 🟢"));
}
