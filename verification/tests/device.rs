use kunz_presence_display::config::{
    ap_pass_from_random, config_from_stored, needs_ap_pass, stored_from_config, AppConfig,
    StoredConfig, DEFAULT_BL_DIM, DEFAULT_BL_DIM_MS, DEFAULT_BL_FULL, DEFAULT_BTN_PIN,
    DEFAULT_MSG_OFF, DEFAULT_MSG_ON, DEFAULT_WIFI_PASS, DEFAULT_WIFI_SSID,
};
use kunz_presence_display::controller::{
    ap_auth_is_open, ap_blink, expected_message, is_time_valid, is_touched, needs_send,
    record_send, restored_toggle_state, restored_toggled_at, set_led, step, unix_now_local_ms,
    LoopInput, LoopState,
};
use kunz_presence_display::display::{
    centered_x, config_hint_text, frame_layout, page_url_text, text_lg_width, text_md_width,
    text_sm_width, update_live_zones,
    LiveCache, COL_DARKGREY, COL_GREEN, COL_OFF_BADGE, COL_ON_BADGE,
};
use kunz_presence_display::telegram::{telegram_accepted, telegram_request};
use kunz_presence_display::web::{
    config_from_form, decimal_string, form_value, render_config_page, FormError, FormField,
    CONFIG_HTML, SAVED_HTML,
};

fn empty_store() -> StoredConfig {
    StoredConfig {
        wifi_ssid: None,
        wifi_pass: None,
        bot_token: None,
        chat_id: None,
        msg_on: None,
        msg_off: None,
        btn_pin: None,
        bl_dim_ms: None,
        bl_full: None,
        bl_dim: None,
        ap_pass: None,
    }
}

fn sample_config() -> AppConfig {
    AppConfig {
        wifi_ssid: "home".to_string(),
        wifi_pass: "pw".to_string(),
        bot_token: "123:ABC".to_string(),
        chat_id: "-100".to_string(),
        msg_on: "on!".to_string(),
        msg_off: "off!".to_string(),
        btn_pin: 5,
        bl_dim_ms: 30_000,
        bl_full: 200,
        bl_dim: 20,
        ap_pass: "SECRET".to_string(),
    }
}

fn same_config(a: &AppConfig, b: &AppConfig) -> bool {
    a.wifi_ssid == b.wifi_ssid
        && a.wifi_pass == b.wifi_pass
        && a.bot_token == b.bot_token
        && a.chat_id == b.chat_id
        && a.msg_on == b.msg_on
        && a.msg_off == b.msg_off
        && a.btn_pin == b.btn_pin
        && a.bl_dim_ms == b.bl_dim_ms
        && a.bl_full == b.bl_full
        && a.bl_dim == b.bl_dim
        && a.ap_pass == b.ap_pass
}

// ── configuration ──────────────────────────────────────────────

#[test]
fn default_config_values() {
    let cfg = AppConfig::default();
    assert_eq!(cfg.wifi_ssid, DEFAULT_WIFI_SSID);
    assert_eq!(cfg.wifi_pass, DEFAULT_WIFI_PASS);
    assert_eq!(cfg.bot_token, "");
    assert_eq!(cfg.chat_id, "");
    assert_eq!(cfg.msg_on, DEFAULT_MSG_ON);
    assert_eq!(cfg.msg_off, DEFAULT_MSG_OFF);
    assert_eq!(cfg.btn_pin, DEFAULT_BTN_PIN);
    assert_eq!(cfg.bl_dim_ms, DEFAULT_BL_DIM_MS);
    assert_eq!(cfg.bl_full, DEFAULT_BL_FULL);
    assert_eq!(cfg.bl_dim, DEFAULT_BL_DIM);
    assert_eq!(cfg.ap_pass, "");
}

#[test]
fn empty_store_loads_defaults() {
    let cfg = config_from_stored(empty_store());
    assert!(same_config(&cfg, &AppConfig::default()));
    assert!(needs_ap_pass(&cfg));
}

#[test]
fn stored_values_replace_defaults() {
    let mut store = empty_store();
    store.msg_on = Some("open".to_string());
    store.bl_dim = Some(3);
    let cfg = config_from_stored(store);
    assert_eq!(cfg.msg_on, "open");
    assert_eq!(cfg.bl_dim, 3);
    assert_eq!(cfg.msg_off, DEFAULT_MSG_OFF);
}

#[test]
fn load_after_save_gives_config_back() {
    let cfg = sample_config();
    let mut stored = stored_from_config(&cfg);
    assert!(stored.ap_pass.is_none());
    stored.ap_pass = Some(cfg.ap_pass.clone());
    let loaded = config_from_stored(stored);
    assert!(same_config(&loaded, &cfg));
    assert!(!needs_ap_pass(&loaded));
}

#[test]
fn ap_pass_picks_charset_by_modulo() {
    assert_eq!(ap_pass_from_random(&[0, 1, 2, 3, 4, 5, 6, 7]), "ABCDEFGH");
    assert_eq!(ap_pass_from_random(&[8, 31, 32, 63, 64 + 13, u32::MAX, 24, 25]), "J9A9P923");
}

// ── web form ───────────────────────────────────────────────────

fn form(pairs: &[(&str, &str)]) -> Vec<(String, String)> {
    pairs.iter().map(|(k, v)| (k.to_string(), v.to_string())).collect()
}

fn valid_form() -> Vec<(String, String)> {
    form(&[
        ("wifiSsid", "  net "),
        ("wifiPass", "pass"),
        ("botToken", "tok"),
        ("chatId", "42"),
        ("msgOn", "Open 🟢"),
        ("msgOff", "Closed"),
        ("btnPin", "+22"),
        ("blDimSec", " 60\t"),
        ("blFull", "255"),
        ("blDim", "10"),
    ])
}

fn with(field: &str, value: &str) -> Vec<(String, String)> {
    let mut f = valid_form();
    for p in f.iter_mut() {
        if p.0 == field {
            p.1 = value.to_string();
        }
    }
    f
}

fn without(field: &str) -> Vec<(String, String)> {
    valid_form().into_iter().filter(|p| p.0 != field).collect()
}

#[test]
fn form_accepted() {
    let cfg = config_from_form(&valid_form(), &sample_config()).unwrap();
    assert_eq!(cfg.wifi_ssid, "net");
    assert_eq!(cfg.msg_on, "Open 🟢");
    assert_eq!(cfg.btn_pin, 22);
    assert_eq!(cfg.bl_dim_ms, 60_000);
    assert_eq!(cfg.bl_full, 255);
    assert_eq!(cfg.bl_dim, 10);
    assert_eq!(cfg.ap_pass, "SECRET");
}

#[test]
fn form_first_value_wins() {
    let mut f = valid_form();
    f.push(("chatId".to_string(), "99".to_string()));
    let cfg = config_from_form(&f, &sample_config()).unwrap();
    assert_eq!(cfg.chat_id, "42");
    assert_eq!(form_value(&f, "chatId"), Some("42".to_string()));
    assert_eq!(form_value(&f, "nope"), None);
}

#[test]
fn form_errors() {
    let cur = sample_config();
    assert_eq!(
        config_from_form(&without("wifiPass"), &cur).err(),
        Some(FormError::MissingField(FormField::WifiPass))
    );
    assert_eq!(
        config_from_form(&without("blDim"), &cur).err(),
        Some(FormError::MissingField(FormField::BlDim))
    );
    assert_eq!(
        config_from_form(&with("btnPin", "x1"), &cur).err(),
        Some(FormError::InvalidNumber(FormField::BtnPin))
    );
    assert_eq!(
        config_from_form(&with("blFull", "256"), &cur).err(),
        Some(FormError::InvalidNumber(FormField::BlFull))
    );
    assert_eq!(
        config_from_form(&with("blDimSec", "-5"), &cur).err(),
        Some(FormError::InvalidNumber(FormField::BlDimSec))
    );
    assert_eq!(config_from_form(&with("wifiSsid", "   "), &cur).err(), Some(FormError::EmptySsid));
    assert_eq!(
        config_from_form(&with("msgOff", ""), &cur).err(),
        Some(FormError::EmptyTelegramField)
    );
    assert_eq!(
        config_from_form(&with("btnPin", "40"), &cur).err(),
        Some(FormError::ButtonPinOutOfRange)
    );
    assert_eq!(
        config_from_form(&with("blDimSec", "4"), &cur).err(),
        Some(FormError::DimTimeoutOutOfRange)
    );
    assert_eq!(
        config_from_form(&with("blDimSec", "3601"), &cur).err(),
        Some(FormError::DimTimeoutOutOfRange)
    );
    assert_eq!(
        config_from_form(&with("blDim", "255"), &cur).err(),
        Some(FormError::DimNotBelowFull)
    );
}

#[test]
fn form_missing_field_reported_before_range_checks() {
    let mut f = with("btnPin", "99");
    f.retain(|p| p.0 != "blFull");
    assert_eq!(
        config_from_form(&f, &sample_config()).err(),
        Some(FormError::MissingField(FormField::BlFull))
    );
}

#[test]
fn config_page_shows_values() {
    let page = render_config_page(&sample_config());
    assert!(page.contains("value=\"home\""));
    assert!(page.contains("value=\"123:ABC\""));
    assert!(page.contains("name=\"btnPin\" type=\"number\" min=\"0\" max=\"39\" value=\"5\""));
    assert!(page.contains("value=\"30\" class=\"mb\""));
    assert!(page.contains("value=\"200\""));
    assert!(!page.contains("{WIFISSID}"));
    assert!(!page.contains("{BLDIM}"));
}

#[test]
fn config_page_template_is_intact() {
    let page = render_config_page(&sample_config());
    assert!(page.contains("value=\"pw\" class=\"mb\">\n\n    <h2>Telegram</h2>\n    <label>Bot Token</label>"));
    assert!(!page.contains("///"));
    assert!(!CONFIG_HTML.contains("///"));
    assert!(CONFIG_HTML.starts_with("<!DOCTYPE html>\n<html lang=\"en\">\n<head>\n"));
    assert!(CONFIG_HTML.ends_with("</form>\n</div>\n</body>\n</html>"));
    assert_eq!(CONFIG_HTML.lines().count(), 78);
    assert!(SAVED_HTML.starts_with("<!DOCTYPE html>\n<html><head><meta charset='utf-8'>\n"));
    assert!(SAVED_HTML.ends_with("<p>Restarting device&hellip;</p></div></body></html>"));
}

#[test]
fn config_page_replaces_in_order() {
    // A value holding a later placeholder is filled in again.
    let mut cfg = sample_config();
    cfg.wifi_ssid = "{CHATID}".to_string();
    let page = render_config_page(&cfg);
    assert!(page.contains("placeholder=\"MyNetwork\" value=\"-100\""));
}

#[test]
fn decimal_string_values() {
    assert_eq!(decimal_string(0), "0");
    assert_eq!(decimal_string(1234567890), "1234567890");
    assert_eq!(decimal_string(u64::MAX), "18446744073709551615");
}

// ── display ────────────────────────────────────────────────────

#[test]
fn live_zones_redraw_only_changes() {
    let mut cache = LiveCache::default();
    let z = update_live_zones(&mut cache, true, Some(0), 1_700_000_000_000);
    assert_eq!(z.time, Some("22:13:20".to_string()));
    assert_eq!(z.date, Some("14 Nov 2023".to_string()));
    assert_eq!(z.elapsed, Some("19675d 22h 13m 20s".to_string()));
    let z = update_live_zones(&mut cache, true, Some(0), 1_700_000_000_000);
    assert!(z.time.is_none() && z.date.is_none() && z.elapsed.is_none());
    let z = update_live_zones(&mut cache, true, Some(0), 1_700_000_000_999);
    assert!(z.time.is_none() && z.date.is_none() && z.elapsed.is_none());
    let z = update_live_zones(&mut cache, true, Some(0), 1_700_000_001_000);
    assert_eq!(z.time, Some("22:13:21".to_string()));
    assert!(z.date.is_none());
    cache.invalidate();
    let z = update_live_zones(&mut cache, true, Some(0), 1_700_000_001_000);
    assert!(z.time.is_some() && z.date.is_some() && z.elapsed.is_some());
}

#[test]
fn live_zones_without_clock() {
    let mut cache = LiveCache::default();
    let z = update_live_zones(&mut cache, false, None, 5_000);
    assert_eq!(z.time, Some("--:--:--".to_string()));
    assert_eq!(z.date, None);
    assert_eq!(z.elapsed, Some("unknown".to_string()));
    // a toggle in the future counts as no time elapsed
    let z = update_live_zones(&mut cache, false, Some(9_000), 5_000);
    assert_eq!(z.elapsed, Some("00m 00s".to_string()));
}

#[test]
fn layout_centering() {
    assert_eq!(centered_x(40), 140);
    assert_eq!(centered_x(321), 0);
    assert_eq!(centered_x(323), -1);
    assert_eq!(text_sm_width("Sent!"), 30);
    assert_eq!(text_md_width("14 Nov 2023"), 110);
    assert_eq!(text_lg_width("OPEN"), 64);
    assert_eq!(text_sm_width("Grüße"), 42);
    let open = frame_layout(true);
    assert_eq!(open.label, "OPEN");
    assert_eq!(open.label_x, 128);
    assert_eq!(open.label_y, 59);
    assert_eq!(open.badge_color, COL_ON_BADGE);
    assert_eq!(open.border_color, COL_GREEN);
    let closed = frame_layout(false);
    assert_eq!(closed.label, "CLOSE");
    assert_eq!(closed.label_x, 120);
    assert_eq!(closed.badge_color, COL_OFF_BADGE);
    assert_eq!(closed.border_color, COL_DARKGREY);
}

#[test]
fn hint_texts() {
    assert_eq!(config_hint_text("10.0.0.7"), Some("Config: http://10.0.0.7/".to_string()));
    assert_eq!(config_hint_text(""), None);
    assert_eq!(page_url_text("192.168.4.1"), "http://192.168.4.1/");
}

// ── telegram ───────────────────────────────────────────────────

#[test]
fn telegram_request_built() {
    let r = telegram_request("123:ABC", "-100", "hi \"you\"").unwrap();
    assert_eq!(r.url, "https://api.telegram.org/bot123:ABC/sendMessage");
    assert_eq!(r.body, "{\"chat_id\":\"-100\",\"text\":\"hi \\\"you\\\"\"}");
    assert!(telegram_request("", "-100", "x").is_none());
    assert!(telegram_request("t", "", "x").is_none());
    assert!(telegram_accepted(200));
    assert!(!telegram_accepted(403));
}

// ── main loop ──────────────────────────────────────────────────

fn input(now: u64, btn_high: bool, touched: bool) -> LoopInput {
    LoopInput { now, btn_high, touched }
}

#[test]
fn clock_helpers() {
    assert!(!is_time_valid(1_700_000_000));
    assert!(is_time_valid(1_700_000_001));
    assert_eq!(unix_now_local_ms(1_700_000_000, 7200), 0);
    assert_eq!(unix_now_local_ms(1_700_000_001, 7200), 1_700_007_201_000);
    assert_eq!(unix_now_local_ms(1_700_000_001, -3600), 1_699_996_401_000);
    assert_eq!(set_led(true), (true, false, true));
    assert_eq!(set_led(false), (true, true, true));
    assert!(is_touched(false));
    assert!(!is_touched(true));
}

#[test]
fn setup_mode_helpers() {
    assert!(ap_auth_is_open(""));
    assert!(!ap_auth_is_open("ABCDEFGH"));
    assert_eq!(ap_blink(false, 1000, 1799), (false, 1000));
    assert_eq!(ap_blink(false, 1000, 1800), (true, 1800));
}

#[test]
fn restore_at_boot() {
    let cfg = sample_config();
    assert!(restored_toggle_state(&cfg, &"on!".to_string()));
    assert!(!restored_toggle_state(&cfg, &"".to_string()));
    assert_eq!(restored_toggled_at(true, 1_700_000_000, 1_700_000_010, 50_000), Some(40_000));
    assert_eq!(restored_toggled_at(true, 1_700_000_000, 1_700_000_100, 50_000), Some(0));
    assert_eq!(restored_toggled_at(false, 1_700_000_000, 1_700_000_010, 50_000), None);
    assert_eq!(restored_toggled_at(true, 0, 1_700_000_010, 50_000), None);
    assert_eq!(restored_toggled_at(true, 1_700_000_020, 1_700_000_010, 50_000), None);
    assert_eq!(expected_message(&cfg, true), "on!");
    assert_eq!(expected_message(&cfg, false), "off!");
    assert!(needs_send(&"".to_string(), &"off!".to_string()));
    assert!(!needs_send(&"off!".to_string(), &"off!".to_string()));
}

#[test]
fn switch_is_debounced() {
    let cfg = sample_config();
    let mut s = LoopState::start(false, None, "off!".to_string(), 0);
    // pressed (LOW) at 100 ms: not yet counted
    let a = step(&mut s, &cfg, input(100, false, false));
    assert!(!a.toggled);
    let a = step(&mut s, &cfg, input(149, false, false));
    assert!(!a.toggled);
    // held 50 ms: OPEN, message sent
    let a = step(&mut s, &cfg, input(150, false, false));
    assert!(a.toggled);
    assert!(s.toggle_state);
    assert_eq!(s.toggled_at, Some(150));
    assert_eq!(a.send, Some("on!".to_string()));
    record_send(&mut s, &"on!".to_string(), true);
    assert_eq!(s.last_sent_text, "on!");
    // nothing changes while held
    let a = step(&mut s, &cfg, input(500, false, false));
    assert!(!a.toggled && a.send.is_none());
}

#[test]
fn failed_send_is_retried_on_next_change_only() {
    let cfg = sample_config();
    let mut s = LoopState::start(false, None, "off!".to_string(), 0);
    let a = step(&mut s, &cfg, input(0, false, false));
    assert!(!a.toggled);
    let a = step(&mut s, &cfg, input(60, false, false));
    assert_eq!(a.send, Some("on!".to_string()));
    record_send(&mut s, &"on!".to_string(), false);
    assert_eq!(s.last_sent_text, "off!");
    // switch back to CLOSED: "off!" was the last accepted message, no send
    let _ = step(&mut s, &cfg, input(100, true, false));
    let a = step(&mut s, &cfg, input(200, true, false));
    assert!(a.toggled);
    assert!(!s.toggle_state);
    assert!(a.send.is_none());
}

#[test]
fn tick_every_second() {
    let cfg = sample_config();
    let mut s = LoopState::start(false, None, String::new(), 0);
    assert!(!step(&mut s, &cfg, input(999, true, false)).refresh_live);
    assert!(step(&mut s, &cfg, input(1000, true, false)).refresh_live);
    assert!(!step(&mut s, &cfg, input(1999, true, false)).refresh_live);
    assert!(step(&mut s, &cfg, input(2000, true, false)).refresh_live);
}

#[test]
fn backlight_dims_and_wakes() {
    let cfg = sample_config(); // dims after 30 s
    let mut s = LoopState::start(false, None, "off!".to_string(), 0);
    let a = step(&mut s, &cfg, input(29_999, true, false));
    assert!(!a.dim && !a.wake);
    let a = step(&mut s, &cfg, input(30_000, true, false));
    assert!(a.dim && !a.wake);
    assert!(s.dimmed);
    let a = step(&mut s, &cfg, input(31_000, true, false));
    assert!(!a.dim && !a.wake);
    let a = step(&mut s, &cfg, input(32_000, true, true));
    assert!(!a.dim && a.wake);
    assert!(!s.dimmed);
    assert_eq!(s.last_activity, 32_000);
    // dim again, then a state change wakes it
    let a = step(&mut s, &cfg, input(62_000, false, false));
    assert!(a.dim && !a.wake);
    let a = step(&mut s, &cfg, input(62_050, false, false));
    assert!(a.toggled && a.wake);
    assert!(!s.dimmed);
}

#[test]
fn dim_and_touch_in_one_step() {
    let cfg = sample_config();
    let mut s = LoopState::start(false, None, "off!".to_string(), 0);
    let a = step(&mut s, &cfg, input(30_000, true, true));
    assert!(a.dim && a.wake);
    assert!(!s.dimmed);
    assert_eq!(s.last_activity, 30_000);
}
