use vstd::prelude::*;
use vstd::string::{StrSliceExecFns, StringExecFns};

use crate::text::push_char;

verus! {

pub const DEFAULT_WIFI_SSID: &'static str = "kunz_gsm2.4";

pub const DEFAULT_WIFI_PASS: &'static str = "kunzkunz";

pub const DEFAULT_BOT_TOKEN: &'static str = "";

pub const DEFAULT_CHAT_ID: &'static str = "";

pub const DEFAULT_MSG_ON: &'static str = "Place is now open!";

pub const DEFAULT_MSG_OFF: &'static str = "Place is closed :(";

pub const DEFAULT_BTN_PIN: u8 = 22;

pub const DEFAULT_BL_DIM_MS: u32 = 60_000;

pub const DEFAULT_BL_FULL: u8 = 255;

pub const DEFAULT_BL_DIM: u8 = 10;

/// SSID of the access point opened for first-time setup.
pub const AP_SSID: &'static str = "PresenceSetup";

/// Offset of local time from UTC, in seconds (UTC+2); change to your timezone.
pub const NTP_UTC_OFFSET_SEC: i32 = 2 * 3600;

/// NVS namespace of the configuration.
pub const NS_CFG: &'static str = "tgcfg";

/// NVS namespace of the last-sent state.
pub const NS_STATE: &'static str = "tgstate";

/// Device configuration, persisted in NVS and edited through the web page.
#[derive(Clone, Debug)]
pub struct AppConfig {
    pub wifi_ssid: String,
    pub wifi_pass: String,
    pub bot_token: String,
    pub chat_id: String,
    pub msg_on: String,
    pub msg_off: String,
    pub btn_pin: u8,
    pub bl_dim_ms: u32,
    pub bl_full: u8,
    pub bl_dim: u8,
    pub ap_pass: String,
}

/// The contents of an `AppConfig`.
pub struct ConfigView {
    pub wifi_ssid: Seq<char>,
    pub wifi_pass: Seq<char>,
    pub bot_token: Seq<char>,
    pub chat_id: Seq<char>,
    pub msg_on: Seq<char>,
    pub msg_off: Seq<char>,
    pub btn_pin: u8,
    pub bl_dim_ms: u32,
    pub bl_full: u8,
    pub bl_dim: u8,
    pub ap_pass: Seq<char>,
}

impl View for AppConfig {
    type V = ConfigView;

    open spec fn view(&self) -> ConfigView {
        ConfigView {
            wifi_ssid: self.wifi_ssid@,
            wifi_pass: self.wifi_pass@,
            bot_token: self.bot_token@,
            chat_id: self.chat_id@,
            msg_on: self.msg_on@,
            msg_off: self.msg_off@,
            btn_pin: self.btn_pin,
            bl_dim_ms: self.bl_dim_ms,
            bl_full: self.bl_full,
            bl_dim: self.bl_dim,
            ap_pass: self.ap_pass@,
        }
    }
}

/// The configuration used where nothing has been stored: the built-in
/// defaults, with no access-point password yet.
pub open spec fn default_config() -> ConfigView {
    ConfigView {
        wifi_ssid: DEFAULT_WIFI_SSID@,
        wifi_pass: DEFAULT_WIFI_PASS@,
        bot_token: DEFAULT_BOT_TOKEN@,
        chat_id: DEFAULT_CHAT_ID@,
        msg_on: DEFAULT_MSG_ON@,
        msg_off: DEFAULT_MSG_OFF@,
        btn_pin: DEFAULT_BTN_PIN,
        bl_dim_ms: DEFAULT_BL_DIM_MS,
        bl_full: DEFAULT_BL_FULL,
        bl_dim: DEFAULT_BL_DIM,
        ap_pass: Seq::empty(),
    }
}

impl Default for AppConfig {
    fn default() -> (cfg: Self)
        ensures
            cfg@ == default_config(),
    {
        AppConfig {
            wifi_ssid: String::from_str(DEFAULT_WIFI_SSID),
            wifi_pass: String::from_str(DEFAULT_WIFI_PASS),
            bot_token: String::from_str(DEFAULT_BOT_TOKEN),
            chat_id: String::from_str(DEFAULT_CHAT_ID),
            msg_on: String::from_str(DEFAULT_MSG_ON),
            msg_off: String::from_str(DEFAULT_MSG_OFF),
            btn_pin: DEFAULT_BTN_PIN,
            bl_dim_ms: DEFAULT_BL_DIM_MS,
            bl_full: DEFAULT_BL_FULL,
            bl_dim: DEFAULT_BL_DIM,
            ap_pass: String::new(),
        }
    }
}

// ── What is kept in NVS ─────────────────────────────────────────

pub const KEY_WIFI_SSID: &'static str = "wifiSsid";

pub const KEY_WIFI_PASS: &'static str = "wifiPass";

pub const KEY_BOT_TOKEN: &'static str = "botToken";

pub const KEY_CHAT_ID: &'static str = "chatId";

pub const KEY_MSG_ON: &'static str = "msgOn";

pub const KEY_MSG_OFF: &'static str = "msgOff";

pub const KEY_BTN_PIN: &'static str = "btnPin";

pub const KEY_BL_DIM_MS: &'static str = "blDimMs";

pub const KEY_BL_FULL: &'static str = "blFull";

pub const KEY_BL_DIM: &'static str = "blDim";

pub const KEY_AP_PASS: &'static str = "apPass";

pub const KEY_LAST_MSG: &'static str = "lastMsg";

pub const KEY_TOGGLE_TIME: &'static str = "toggleTime";

/// The configuration values found in NVS, one per key (`None` where the key
/// is absent or unreadable).
pub struct StoredConfig {
    pub wifi_ssid: Option<String>,
    pub wifi_pass: Option<String>,
    pub bot_token: Option<String>,
    pub chat_id: Option<String>,
    pub msg_on: Option<String>,
    pub msg_off: Option<String>,
    pub btn_pin: Option<u8>,
    pub bl_dim_ms: Option<u32>,
    pub bl_full: Option<u8>,
    pub bl_dim: Option<u8>,
    pub ap_pass: Option<String>,
}

pub struct StoredView {
    pub wifi_ssid: Option<Seq<char>>,
    pub wifi_pass: Option<Seq<char>>,
    pub bot_token: Option<Seq<char>>,
    pub chat_id: Option<Seq<char>>,
    pub msg_on: Option<Seq<char>>,
    pub msg_off: Option<Seq<char>>,
    pub btn_pin: Option<u8>,
    pub bl_dim_ms: Option<u32>,
    pub bl_full: Option<u8>,
    pub bl_dim: Option<u8>,
    pub ap_pass: Option<Seq<char>>,
}

pub open spec fn text_of(o: Option<String>) -> Option<Seq<char>> {
    match o {
        Some(s) => Some(s@),
        None => None,
    }
}

impl View for StoredConfig {
    type V = StoredView;

    open spec fn view(&self) -> StoredView {
        StoredView {
            wifi_ssid: text_of(self.wifi_ssid),
            wifi_pass: text_of(self.wifi_pass),
            bot_token: text_of(self.bot_token),
            chat_id: text_of(self.chat_id),
            msg_on: text_of(self.msg_on),
            msg_off: text_of(self.msg_off),
            btn_pin: self.btn_pin,
            bl_dim_ms: self.bl_dim_ms,
            bl_full: self.bl_full,
            bl_dim: self.bl_dim,
            ap_pass: text_of(self.ap_pass),
        }
    }
}

pub open spec fn or_else<T>(o: Option<T>, d: T) -> T {
    match o {
        Some(v) => v,
        None => d,
    }
}

/// The configuration loaded from stored values: each stored value replaces
/// its default; the access-point password is empty when none is stored.
pub open spec fn config_of_stored(s: StoredView) -> ConfigView {
    let d = default_config();
    ConfigView {
        wifi_ssid: or_else(s.wifi_ssid, d.wifi_ssid),
        wifi_pass: or_else(s.wifi_pass, d.wifi_pass),
        bot_token: or_else(s.bot_token, d.bot_token),
        chat_id: or_else(s.chat_id, d.chat_id),
        msg_on: or_else(s.msg_on, d.msg_on),
        msg_off: or_else(s.msg_off, d.msg_off),
        btn_pin: or_else(s.btn_pin, d.btn_pin),
        bl_dim_ms: or_else(s.bl_dim_ms, d.bl_dim_ms),
        bl_full: or_else(s.bl_full, d.bl_full),
        bl_dim: or_else(s.bl_dim, d.bl_dim),
        ap_pass: or_else(s.ap_pass, Seq::empty()),
    }
}

/// The values saving `cfg` writes: every field but the access-point
/// password, which only its generation writes.
pub open spec fn stored_of_config(cfg: ConfigView) -> StoredView {
    StoredView {
        wifi_ssid: Some(cfg.wifi_ssid),
        wifi_pass: Some(cfg.wifi_pass),
        bot_token: Some(cfg.bot_token),
        chat_id: Some(cfg.chat_id),
        msg_on: Some(cfg.msg_on),
        msg_off: Some(cfg.msg_off),
        btn_pin: Some(cfg.btn_pin),
        bl_dim_ms: Some(cfg.bl_dim_ms),
        bl_full: Some(cfg.bl_full),
        bl_dim: Some(cfg.bl_dim),
        ap_pass: None,
    }
}

fn string_or(o: Option<String>, d: &str) -> (s: String)
    ensures
        s@ == or_else(text_of(o), d@),
{
    match o {
        Some(v) => v,
        None => String::from_str(d),
    }
}

/// Builds the configuration from the values found in NVS, falling back to
/// the defaults for every key that is missing.
pub fn config_from_stored(stored: StoredConfig) -> (cfg: AppConfig)
    ensures
        cfg@ == config_of_stored(stored@),
{
    let ghost s = stored@;
    let cfg = AppConfig {
        wifi_ssid: string_or(stored.wifi_ssid, DEFAULT_WIFI_SSID),
        wifi_pass: string_or(stored.wifi_pass, DEFAULT_WIFI_PASS),
        bot_token: string_or(stored.bot_token, DEFAULT_BOT_TOKEN),
        chat_id: string_or(stored.chat_id, DEFAULT_CHAT_ID),
        msg_on: string_or(stored.msg_on, DEFAULT_MSG_ON),
        msg_off: string_or(stored.msg_off, DEFAULT_MSG_OFF),
        btn_pin: match stored.btn_pin {
            Some(v) => v,
            None => DEFAULT_BTN_PIN,
        },
        bl_dim_ms: match stored.bl_dim_ms {
            Some(v) => v,
            None => DEFAULT_BL_DIM_MS,
        },
        bl_full: match stored.bl_full {
            Some(v) => v,
            None => DEFAULT_BL_FULL,
        },
        bl_dim: match stored.bl_dim {
            Some(v) => v,
            None => DEFAULT_BL_DIM,
        },
        ap_pass: match stored.ap_pass {
            Some(v) => v,
            None => String::new(),
        },
    };
    assert(cfg@ == config_of_stored(s));
    cfg
}

/// The values that saving `cfg` writes to NVS.
pub fn stored_from_config(cfg: &AppConfig) -> (stored: StoredConfig)
    ensures
        stored@ == stored_of_config(cfg@),
{
    StoredConfig {
        wifi_ssid: Some(cfg.wifi_ssid.clone()),
        wifi_pass: Some(cfg.wifi_pass.clone()),
        bot_token: Some(cfg.bot_token.clone()),
        chat_id: Some(cfg.chat_id.clone()),
        msg_on: Some(cfg.msg_on.clone()),
        msg_off: Some(cfg.msg_off.clone()),
        btn_pin: Some(cfg.btn_pin),
        bl_dim_ms: Some(cfg.bl_dim_ms),
        bl_full: Some(cfg.bl_full),
        bl_dim: Some(cfg.bl_dim),
        ap_pass: None,
    }
}

/// Loading what saving wrote gives back the saved configuration, provided
/// the store still holds the configuration's access-point password.
pub proof fn lemma_load_after_save(cfg: ConfigView)
    ensures
        config_of_stored(StoredView { ap_pass: Some(cfg.ap_pass), ..stored_of_config(cfg) }) == cfg,
{
}

/// With nothing stored, loading yields the defaults.
pub proof fn lemma_load_from_empty_store()
    ensures
        config_of_stored(
            StoredView {
                wifi_ssid: None,
                wifi_pass: None,
                bot_token: None,
                chat_id: None,
                msg_on: None,
                msg_off: None,
                btn_pin: None,
                bl_dim_ms: None,
                bl_full: None,
                bl_dim: None,
                ap_pass: None,
            },
        ) == default_config(),
{
}

/// Whether a fresh access-point password has to be generated (and stored).
pub fn needs_ap_pass(cfg: &AppConfig) -> (needed: bool)
    ensures
        needed == (cfg.ap_pass@.len() == 0),
{
    cfg.ap_pass.as_str().is_empty()
}

// ── Access-point password ────────────────────────────────────────

/// Characters of generated passwords: upper-case letters and digits,
/// without the look-alikes 0, O, I and 1.
pub const AP_PASS_CHARSET: &'static str = "ABCDEFGHJKLMNPQRSTUVWXYZ23456789";

/// The password made of eight random words: each picks the charset
/// character at its value modulo the charset's size.
pub open spec fn ap_pass_of(random: Seq<u32>) -> Seq<char> {
    Seq::new(8, |i: int| AP_PASS_CHARSET@[(random[i] % 32) as int])
}

/// Generates the access-point password from eight random words.
pub fn ap_pass_from_random(random: &[u32; 8]) -> (pass: String)
    ensures
        pass@ == ap_pass_of(random@),
{
    proof {
        reveal_strlit("ABCDEFGHJKLMNPQRSTUVWXYZ23456789");
    }
    assert(AP_PASS_CHARSET@.len() == 32);
    let mut pass = String::new();
    let mut i: usize = 0;
    while i < 8
        invariant
            0 <= i <= 8,
            random@.len() == 8,
            AP_PASS_CHARSET@.len() == 32,
            pass@ == ap_pass_of(random@).take(i as int),
        decreases 8 - i,
    {
        let idx = (random[i] as usize) % 32;
        let c = AP_PASS_CHARSET.get_char(idx);
        push_char(&mut pass, c);
        i = i + 1;
        assert(pass@ =~= ap_pass_of(random@).take(i as int));
    }
    assert(ap_pass_of(random@).take(8) =~= ap_pass_of(random@));
    pass
}

} // verus!
