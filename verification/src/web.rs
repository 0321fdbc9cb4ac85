use vstd::prelude::*;
use vstd::string::StringExecFns;

use crate::config::{text_of, AppConfig, ConfigView};
use crate::logic::pair_texts;
use crate::strings::{
    parse_u32, parse_u8, parsed_u32, parsed_u8, replace_all, replace_all_str, str_trim, trimmed,
};
use crate::text::{decimal, push_decimal};

verus! {

/// The configuration form (`GET /`); `{NAME}` placeholders stand for the
/// current values.
pub const CONFIG_HTML: &'static str = r#"<!DOCTYPE html>
<html lang="en">
<head>
<meta charset="utf-8">
<meta name="viewport" content="width=device-width,initial-scale=1">
<title>Presence Display — Config</title>
<style>
  body{font-family:sans-serif;background:#111;color:#eee;display:flex;
       justify-content:center;align-items:center;min-height:100vh;margin:0}
  .card{background:#1e1e1e;border-radius:12px;padding:2rem;width:min(380px,90vw);
        box-shadow:0 4px 24px #0006}
  h1{margin:0 0 .25rem;font-size:1.3rem;color:#4af}
  h2{margin:.5rem 0 1rem;font-size:.9rem;color:#666;font-weight:normal;
     border-bottom:1px solid #333;padding-bottom:.5rem}
  label{display:block;margin-bottom:.3rem;font-size:.85rem;color:#aaa}
  .hint{font-size:.75rem;color:#555;margin-top:-.1rem;margin-bottom:1rem}
  input{width:100%;box-sizing:border-box;padding:.6rem .8rem;border-radius:6px;
        border:1px solid #444;background:#111;color:#eee;font-size:.95rem;margin-bottom:.4rem}
  input:focus{outline:none;border-color:#4af}
  .row{display:flex;gap:.75rem}
  .row input{margin-bottom:.4rem}
  .mb{margin-bottom:1.2rem}
  button{width:100%;padding:.75rem;border:none;border-radius:6px;margin-top:.8rem;
         background:#1a6fb5;color:#fff;font-size:1rem;cursor:pointer}
  button:hover{background:#2280cc}
</style>
</head>
<body>
<div class="card">
  <h1>&#9881; Device Config</h1>
  <form method="POST" action="/save">
    <h2>WiFi</h2>
    <label>SSID</label>
    <input name="wifiSsid" type="text" autocomplete="off" placeholder="MyNetwork" value="{WIFISSID}">
    <p class="hint">Takes effect after restart</p>
    <label>Password</label>
    <input name="wifiPass" type="password" autocomplete="off" placeholder="••••••••" value="{WIFIPASS}" class="mb">

    <h2>Telegram</h2>
    <label>Bot Token</label>
    <input name="botToken" type="text" autocomplete="off" placeholder="1234567890:AAB..." value="{TOKEN}">
    <p class="hint">Obtain from @BotFather on Telegram</p>
    <label>Chat ID</label>
    <input name="chatId" type="text" autocomplete="off" placeholder="123456789" value="{CHATID}" class="mb">
    <label>Open message</label>
    <input name="msgOn" type="text" autocomplete="off" placeholder="Place is now open!" value="{MSGON}">
    <p class="hint">Sent when toggled to OPEN — emoji supported</p>
    <label>Closed message</label>
    <input name="msgOff" type="text" autocomplete="off" placeholder="Place is closed :(" value="{MSGOFF}" class="mb">
    <p class="hint">Sent when toggled to CLOSED — emoji supported</p>

    <h2>Hardware</h2>
    <div class="row">
      <div style="flex:1">
        <label>Button GPIO pin</label>
        <input name="btnPin" type="number" min="0" max="39" value="{BTNPIN}" class="mb">
      </div>
      <div style="flex:1">
        <label>Dim after (seconds)</label>
        <input name="blDimSec" type="number" min="5" max="3600" value="{BLDIMSEC}" class="mb">
      </div>
    </div>
    <div class="row">
      <div style="flex:1">
        <label>Backlight full (0-255)</label>
        <input name="blFull" type="number" min="0" max="255" value="{BLFULL}" class="mb">
      </div>
      <div style="flex:1">
        <label>Backlight dim (0-255)</label>
        <input name="blDim" type="number" min="0" max="255" value="{BLDIM}" class="mb">
      </div>
    </div>

    <button type="submit">Save &amp; Restart</button>
  </form>
</div>
</body>
</html>"#;

/// The page answering a saved configuration (`POST /save`).
pub const SAVED_HTML: &'static str = r#"<!DOCTYPE html>
<html><head><meta charset='utf-8'>
<style>body{font-family:sans-serif;background:#111;color:#eee;
display:flex;justify-content:center;align-items:center;height:100vh}
.m{text-align:center}.m h2{color:#4d4}</style></head>
<body><div class='m'><h2>&#10003; Saved!</h2>
<p>Restarting device&hellip;</p></div></body></html>"#;


// ── The configuration page ───────────────────────────────────────

/// `n` as decimal text.
pub fn decimal_string(n: u64) -> (s: String)
    ensures
        s@ == decimal(n as nat),
{
    let mut s = String::new();
    push_decimal(&mut s, n);
    assert(s@ =~= decimal(n as nat));
    s
}

/// The configuration form filled in with `cfg`: each placeholder, in turn,
/// replaced by its value.
pub open spec fn config_page(cfg: ConfigView) -> Seq<char> {
    let p = replace_all(CONFIG_HTML@, "{WIFISSID}"@, cfg.wifi_ssid);
    let p = replace_all(p, "{WIFIPASS}"@, cfg.wifi_pass);
    let p = replace_all(p, "{TOKEN}"@, cfg.bot_token);
    let p = replace_all(p, "{CHATID}"@, cfg.chat_id);
    let p = replace_all(p, "{MSGON}"@, cfg.msg_on);
    let p = replace_all(p, "{MSGOFF}"@, cfg.msg_off);
    let p = replace_all(p, "{BTNPIN}"@, decimal(cfg.btn_pin as nat));
    let p = replace_all(p, "{BLDIMSEC}"@, decimal(cfg.bl_dim_ms as nat / 1000));
    let p = replace_all(p, "{BLFULL}"@, decimal(cfg.bl_full as nat));
    replace_all(p, "{BLDIM}"@, decimal(cfg.bl_dim as nat))
}

/// Renders the configuration form for `cfg`.
pub fn render_config_page(cfg: &AppConfig) -> (page: String)
    ensures
        page@ == config_page(cfg@),
{
    proof {
        reveal_strlit("{WIFISSID}");
        reveal_strlit("{WIFIPASS}");
        reveal_strlit("{TOKEN}");
        reveal_strlit("{CHATID}");
        reveal_strlit("{MSGON}");
        reveal_strlit("{MSGOFF}");
        reveal_strlit("{BTNPIN}");
        reveal_strlit("{BLDIMSEC}");
        reveal_strlit("{BLFULL}");
        reveal_strlit("{BLDIM}");
    }
    let p = replace_all_str(CONFIG_HTML, "{WIFISSID}", cfg.wifi_ssid.as_str());
    let p = replace_all_str(p.as_str(), "{WIFIPASS}", cfg.wifi_pass.as_str());
    let p = replace_all_str(p.as_str(), "{TOKEN}", cfg.bot_token.as_str());
    let p = replace_all_str(p.as_str(), "{CHATID}", cfg.chat_id.as_str());
    let p = replace_all_str(p.as_str(), "{MSGON}", cfg.msg_on.as_str());
    let p = replace_all_str(p.as_str(), "{MSGOFF}", cfg.msg_off.as_str());
    let btn = decimal_string(cfg.btn_pin as u64);
    let p = replace_all_str(p.as_str(), "{BTNPIN}", btn.as_str());
    let dim_sec = decimal_string((cfg.bl_dim_ms / 1000) as u64);
    let p = replace_all_str(p.as_str(), "{BLDIMSEC}", dim_sec.as_str());
    let full = decimal_string(cfg.bl_full as u64);
    let p = replace_all_str(p.as_str(), "{BLFULL}", full.as_str());
    let dim = decimal_string(cfg.bl_dim as u64);
    replace_all_str(p.as_str(), "{BLDIM}", dim.as_str())
}

// ── Saving the form ──────────────────────────────────────────────

/// The fields of the configuration form.
#[derive(Clone, Copy, Debug, PartialEq, Eq, Structural)]
pub enum FormField {
    WifiSsid,
    WifiPass,
    BotToken,
    ChatId,
    MsgOn,
    MsgOff,
    BtnPin,
    BlDimSec,
    BlFull,
    BlDim,
}

impl FormField {
    /// The name of the field in the submitted form.
    pub open spec fn name(self) -> Seq<char> {
        match self {
            FormField::WifiSsid => "wifiSsid"@,
            FormField::WifiPass => "wifiPass"@,
            FormField::BotToken => "botToken"@,
            FormField::ChatId => "chatId"@,
            FormField::MsgOn => "msgOn"@,
            FormField::MsgOff => "msgOff"@,
            FormField::BtnPin => "btnPin"@,
            FormField::BlDimSec => "blDimSec"@,
            FormField::BlFull => "blFull"@,
            FormField::BlDim => "blDim"@,
        }
    }

    pub fn key(self) -> (k: &'static str)
        ensures
            k@ == self.name(),
    {
        match self {
            FormField::WifiSsid => "wifiSsid",
            FormField::WifiPass => "wifiPass",
            FormField::BotToken => "botToken",
            FormField::ChatId => "chatId",
            FormField::MsgOn => "msgOn",
            FormField::MsgOff => "msgOff",
            FormField::BtnPin => "btnPin",
            FormField::BlDimSec => "blDimSec",
            FormField::BlFull => "blFull",
            FormField::BlDim => "blDim",
        }
    }
}

/// Why a submitted configuration is refused.
#[derive(Clone, Copy, Debug, PartialEq, Eq, Structural)]
pub enum FormError {
    /// The form lacks the field.
    MissingField(FormField),
    /// The field does not hold an unsigned number of its type.
    InvalidNumber(FormField),
    /// The WiFi SSID is empty.
    EmptySsid,
    /// The bot token, chat id or one of the two messages is empty.
    EmptyTelegramField,
    /// The button GPIO is above 39.
    ButtonPinOutOfRange,
    /// The dim timeout is outside 5–3600 seconds.
    DimTimeoutOutOfRange,
    /// The dim brightness is not below the full brightness.
    DimNotBelowFull,
}

/// The value of the first pair whose key is `key`.
pub open spec fn form_lookup(form: Seq<(Seq<char>, Seq<char>)>, key: Seq<char>) -> Option<Seq<char>>
    decreases form.len(),
{
    if form.len() == 0 {
        None
    } else if form[0].0 == key {
        Some(form[0].1)
    } else {
        form_lookup(form.drop_first(), key)
    }
}

/// A text field: its value with surrounding white space trimmed.
pub open spec fn text_field(form: Seq<(Seq<char>, Seq<char>)>, f: FormField) -> Result<Seq<char>, FormError> {
    match form_lookup(form, f.name()) {
        Some(v) => Ok(trimmed(v)),
        None => Err(FormError::MissingField(f)),
    }
}

/// A `u8` field: its trimmed value read as a number.
pub open spec fn u8_field(form: Seq<(Seq<char>, Seq<char>)>, f: FormField) -> Result<u8, FormError> {
    match form_lookup(form, f.name()) {
        Some(v) => match parsed_u8(trimmed(v)) {
            Some(n) => Ok(n),
            None => Err(FormError::InvalidNumber(f)),
        },
        None => Err(FormError::MissingField(f)),
    }
}

/// A `u32` field: its trimmed value read as a number.
pub open spec fn u32_field(form: Seq<(Seq<char>, Seq<char>)>, f: FormField) -> Result<u32, FormError> {
    match form_lookup(form, f.name()) {
        Some(v) => match parsed_u32(trimmed(v)) {
            Some(n) => Ok(n),
            None => Err(FormError::InvalidNumber(f)),
        },
        None => Err(FormError::MissingField(f)),
    }
}

/// The configuration a submitted form asks for, or the first fault found:
/// the fields are read in form order (a missing or non-numeric field is
/// reported first), then the SSID, the Telegram fields, the button pin, the
/// dim timeout and the brightness levels are checked. The access-point
/// password is kept from `current`.
pub open spec fn form_config(form: Seq<(Seq<char>, Seq<char>)>, current: ConfigView) -> Result<ConfigView, FormError> {
    let wifi_ssid = text_field(form, FormField::WifiSsid);
    let wifi_pass = text_field(form, FormField::WifiPass);
    let bot_token = text_field(form, FormField::BotToken);
    let chat_id = text_field(form, FormField::ChatId);
    let msg_on = text_field(form, FormField::MsgOn);
    let msg_off = text_field(form, FormField::MsgOff);
    let btn_pin = u8_field(form, FormField::BtnPin);
    let dim_sec = u32_field(form, FormField::BlDimSec);
    let bl_full = u8_field(form, FormField::BlFull);
    let bl_dim = u8_field(form, FormField::BlDim);
    if wifi_ssid is Err {
        Err(wifi_ssid->Err_0)
    } else if wifi_pass is Err {
        Err(wifi_pass->Err_0)
    } else if bot_token is Err {
        Err(bot_token->Err_0)
    } else if chat_id is Err {
        Err(chat_id->Err_0)
    } else if msg_on is Err {
        Err(msg_on->Err_0)
    } else if msg_off is Err {
        Err(msg_off->Err_0)
    } else if btn_pin is Err {
        Err(btn_pin->Err_0)
    } else if dim_sec is Err {
        Err(dim_sec->Err_0)
    } else if bl_full is Err {
        Err(bl_full->Err_0)
    } else if bl_dim is Err {
        Err(bl_dim->Err_0)
    } else if wifi_ssid->Ok_0.len() == 0 {
        Err(FormError::EmptySsid)
    } else if bot_token->Ok_0.len() == 0 || chat_id->Ok_0.len() == 0 || msg_on->Ok_0.len() == 0
        || msg_off->Ok_0.len() == 0 {
        Err(FormError::EmptyTelegramField)
    } else if btn_pin->Ok_0 > 39 {
        Err(FormError::ButtonPinOutOfRange)
    } else if !(5 <= dim_sec->Ok_0 <= 3600) {
        Err(FormError::DimTimeoutOutOfRange)
    } else if bl_dim->Ok_0 >= bl_full->Ok_0 {
        Err(FormError::DimNotBelowFull)
    } else {
        Ok(
            ConfigView {
                wifi_ssid: wifi_ssid->Ok_0,
                wifi_pass: wifi_pass->Ok_0,
                bot_token: bot_token->Ok_0,
                chat_id: chat_id->Ok_0,
                msg_on: msg_on->Ok_0,
                msg_off: msg_off->Ok_0,
                btn_pin: btn_pin->Ok_0,
                bl_dim_ms: (dim_sec->Ok_0 * 1000) as u32,
                bl_full: bl_full->Ok_0,
                bl_dim: bl_dim->Ok_0,
                ap_pass: current.ap_pass,
            },
        )
    }
}

/// The value of the first pair of `form` whose key is `key`.
pub fn form_value(form: &Vec<(String, String)>, key: &str) -> (v: Option<String>)
    ensures
        text_of(v) == form_lookup(pair_texts(form@), key@),
{
    let key_s = String::from_str(key);
    let ghost all = pair_texts(form@);
    let mut i: usize = 0;
    assert(all.skip(0) =~= all);
    while i < form.len()
        invariant
            i <= form@.len(),
            all == pair_texts(form@),
            key_s@ == key@,
            form_lookup(all, key@) == form_lookup(all.skip(i as int), key@),
        decreases form@.len() - i,
    {
        assert(all.skip(i as int)[0] == (form@[i as int].0@, form@[i as int].1@));
        if form[i].0 == key_s {
            return Some(form[i].1.clone());
        }
        assert(all.skip(i as int).drop_first() =~= all.skip(i + 1));
        i = i + 1;
    }
    None
}

fn text_field_of(form: &Vec<(String, String)>, f: FormField) -> (r: Result<String, FormError>)
    ensures
        match r {
            Ok(s) => text_field(pair_texts(form@), f) == Ok::<Seq<char>, FormError>(s@),
            Err(e) => text_field(pair_texts(form@), f) == Err::<Seq<char>, FormError>(e),
        },
{
    match form_value(form, f.key()) {
        Some(v) => Ok(String::from_str(str_trim(v.as_str()))),
        None => Err(FormError::MissingField(f)),
    }
}

fn u8_field_of(form: &Vec<(String, String)>, f: FormField) -> (r: Result<u8, FormError>)
    ensures
        r == u8_field(pair_texts(form@), f),
{
    match form_value(form, f.key()) {
        Some(v) => match parse_u8(str_trim(v.as_str())) {
            Some(n) => Ok(n),
            None => Err(FormError::InvalidNumber(f)),
        },
        None => Err(FormError::MissingField(f)),
    }
}

fn u32_field_of(form: &Vec<(String, String)>, f: FormField) -> (r: Result<u32, FormError>)
    ensures
        r == u32_field(pair_texts(form@), f),
{
    match form_value(form, f.key()) {
        Some(v) => match parse_u32(str_trim(v.as_str())) {
            Some(n) => Ok(n),
            None => Err(FormError::InvalidNumber(f)),
        },
        None => Err(FormError::MissingField(f)),
    }
}

/// Validates a submitted configuration form and builds the configuration it
/// asks for; the access-point password is kept from `current`.
pub fn config_from_form(form: &Vec<(String, String)>, current: &AppConfig) -> (r: Result<AppConfig, FormError>)
    ensures
        match r {
            Ok(cfg) => form_config(pair_texts(form@), current@) == Ok::<ConfigView, FormError>(cfg@),
            Err(e) => form_config(pair_texts(form@), current@) == Err::<ConfigView, FormError>(e),
        },
{
    let wifi_ssid = match text_field_of(form, FormField::WifiSsid) {
        Ok(v) => v,
        Err(e) => return Err(e),
    };
    let wifi_pass = match text_field_of(form, FormField::WifiPass) {
        Ok(v) => v,
        Err(e) => return Err(e),
    };
    let bot_token = match text_field_of(form, FormField::BotToken) {
        Ok(v) => v,
        Err(e) => return Err(e),
    };
    let chat_id = match text_field_of(form, FormField::ChatId) {
        Ok(v) => v,
        Err(e) => return Err(e),
    };
    let msg_on = match text_field_of(form, FormField::MsgOn) {
        Ok(v) => v,
        Err(e) => return Err(e),
    };
    let msg_off = match text_field_of(form, FormField::MsgOff) {
        Ok(v) => v,
        Err(e) => return Err(e),
    };
    let btn_pin = match u8_field_of(form, FormField::BtnPin) {
        Ok(v) => v,
        Err(e) => return Err(e),
    };
    let dim_sec = match u32_field_of(form, FormField::BlDimSec) {
        Ok(v) => v,
        Err(e) => return Err(e),
    };
    let bl_full = match u8_field_of(form, FormField::BlFull) {
        Ok(v) => v,
        Err(e) => return Err(e),
    };
    let bl_dim = match u8_field_of(form, FormField::BlDim) {
        Ok(v) => v,
        Err(e) => return Err(e),
    };
    if wifi_ssid.as_str().is_empty() {
        return Err(FormError::EmptySsid);
    }
    if bot_token.as_str().is_empty() || chat_id.as_str().is_empty() || msg_on.as_str().is_empty()
        || msg_off.as_str().is_empty() {
        return Err(FormError::EmptyTelegramField);
    }
    if btn_pin > 39 {
        return Err(FormError::ButtonPinOutOfRange);
    }
    if !(5 <= dim_sec && dim_sec <= 3600) {
        return Err(FormError::DimTimeoutOutOfRange);
    }
    if bl_dim >= bl_full {
        return Err(FormError::DimNotBelowFull);
    }
    let cfg = AppConfig {
        wifi_ssid,
        wifi_pass,
        bot_token,
        chat_id,
        msg_on,
        msg_off,
        btn_pin,
        bl_dim_ms: dim_sec * 1000,
        bl_full,
        bl_dim,
        ap_pass: current.ap_pass.clone(),
    };
    Ok(cfg)
}

/// Every configuration the form accepts meets the page's rules: non-empty
/// SSID and Telegram fields, a button GPIO of at most 39, a dim timeout of
/// 5–3600 s, a dim level below the full level; the access-point password
/// is the current one.
pub proof fn lemma_accepted_config_valid(form: Seq<(Seq<char>, Seq<char>)>, current: ConfigView)
    ensures
        form_config(form, current) matches Ok(c) ==> {
            &&& c.wifi_ssid.len() > 0
            &&& c.bot_token.len() > 0 && c.chat_id.len() > 0
            &&& c.msg_on.len() > 0 && c.msg_off.len() > 0
            &&& c.btn_pin <= 39
            &&& 5000 <= c.bl_dim_ms <= 3_600_000
            &&& c.bl_dim < c.bl_full
            &&& c.ap_pass == current.ap_pass
        },
{
}

/// `i` is the position of the first pair of `form` whose key is `key`.
pub open spec fn is_first_with_key(form: Seq<(Seq<char>, Seq<char>)>, i: int, key: Seq<char>) -> bool {
    &&& 0 <= i < form.len()
    &&& form[i].0 == key
    &&& forall|j: int| 0 <= j < i ==> form[j].0 != key
}

proof fn lemma_form_lookup_first(form: Seq<(Seq<char>, Seq<char>)>, key: Seq<char>)
    ensures
        form_lookup(form, key) is Some ==> exists|i: int| is_first_with_key(form, i, key),
        forall|i: int| is_first_with_key(form, i, key) ==> form_lookup(form, key) == Some(form[i].1),
    decreases form.len(),
{
    if form.len() > 0 {
        let rest = form.drop_first();
        lemma_form_lookup_first(rest, key);
        if form[0].0 == key {
            assert(is_first_with_key(form, 0, key));
            assert forall|i: int| is_first_with_key(form, i, key) implies form_lookup(form, key) == Some(
                form[i].1,
            ) by {
                if i > 0 {
                    assert(form[0].0 != key);
                }
            }
        } else {
            if form_lookup(form, key) is Some {
                let i = choose|i: int| is_first_with_key(rest, i, key);
                assert forall|j: int| 0 <= j < i + 1 implies form[j].0 != key by {
                    if j > 0 {
                        assert(form[j] == rest[j - 1]);
                    }
                }
                assert(is_first_with_key(form, i + 1, key));
            }
            assert forall|i: int| is_first_with_key(form, i, key) implies form_lookup(form, key) == Some(
                form[i].1,
            ) by {
                assert(i > 0);
                assert forall|j: int| 0 <= j < i - 1 implies rest[j].0 != key by {
                    assert(rest[j] == form[j + 1]);
                }
                assert(is_first_with_key(rest, i - 1, key));
            }
        }
    }
}

/// An accepted form is what the new configuration is made of: every field
/// of the form is present, and each value of the configuration comes from
/// the first pair of its field, trimmed, and read as a number for the
/// numeric fields (the dim timeout given in seconds, kept in milliseconds).
pub proof fn lemma_accepted_config_from_form(form: Seq<(Seq<char>, Seq<char>)>, current: ConfigView)
    ensures
        form_config(form, current) matches Ok(c) ==> {
            &&& exists|i: int| is_first_with_key(form, i, "wifiSsid"@)
            &&& exists|i: int| is_first_with_key(form, i, "wifiPass"@)
            &&& exists|i: int| is_first_with_key(form, i, "botToken"@)
            &&& exists|i: int| is_first_with_key(form, i, "chatId"@)
            &&& exists|i: int| is_first_with_key(form, i, "msgOn"@)
            &&& exists|i: int| is_first_with_key(form, i, "msgOff"@)
            &&& exists|i: int| is_first_with_key(form, i, "btnPin"@)
            &&& exists|i: int| is_first_with_key(form, i, "blDimSec"@)
            &&& exists|i: int| is_first_with_key(form, i, "blFull"@)
            &&& exists|i: int| is_first_with_key(form, i, "blDim"@)
        },
        form_config(form, current) matches Ok(c) ==> forall|i: int| {
            &&& is_first_with_key(form, i, "wifiSsid"@) ==> c.wifi_ssid == trimmed(form[i].1)
            &&& is_first_with_key(form, i, "wifiPass"@) ==> c.wifi_pass == trimmed(form[i].1)
            &&& is_first_with_key(form, i, "botToken"@) ==> c.bot_token == trimmed(form[i].1)
            &&& is_first_with_key(form, i, "chatId"@) ==> c.chat_id == trimmed(form[i].1)
            &&& is_first_with_key(form, i, "msgOn"@) ==> c.msg_on == trimmed(form[i].1)
            &&& is_first_with_key(form, i, "msgOff"@) ==> c.msg_off == trimmed(form[i].1)
            &&& is_first_with_key(form, i, "btnPin"@) ==> parsed_u8(trimmed(form[i].1)) == Some(
                c.btn_pin,
            )
            &&& is_first_with_key(form, i, "blDimSec"@) ==> (parsed_u32(trimmed(form[i].1)) matches Some(
                n,
            ) && c.bl_dim_ms == n * 1000)
            &&& is_first_with_key(form, i, "blFull"@) ==> parsed_u8(trimmed(form[i].1)) == Some(
                c.bl_full,
            )
            &&& is_first_with_key(form, i, "blDim"@) ==> parsed_u8(trimmed(form[i].1)) == Some(c.bl_dim)
        },
{
    lemma_form_lookup_first(form, "wifiSsid"@);
    lemma_form_lookup_first(form, "wifiPass"@);
    lemma_form_lookup_first(form, "botToken"@);
    lemma_form_lookup_first(form, "chatId"@);
    lemma_form_lookup_first(form, "msgOn"@);
    lemma_form_lookup_first(form, "msgOff"@);
    lemma_form_lookup_first(form, "btnPin"@);
    lemma_form_lookup_first(form, "blDimSec"@);
    lemma_form_lookup_first(form, "blFull"@);
    lemma_form_lookup_first(form, "blDim"@);
}

/// A form is accepted when each field is present and its first value, once
/// trimmed, is what the page asks for: a non-empty SSID, non-empty Telegram
/// fields, a button GPIO of at most 39, a dim timeout of 5 to 3600 seconds,
/// and full and dim brightness levels with the dim one below the full one.
pub proof fn lemma_valid_form_accepted(
    form: Seq<(Seq<char>, Seq<char>)>,
    current: ConfigView,
    i_ssid: int,
    i_pass: int,
    i_token: int,
    i_chat: int,
    i_on: int,
    i_off: int,
    i_pin: int,
    i_dim_sec: int,
    i_full: int,
    i_dim: int,
)
    requires
        is_first_with_key(form, i_ssid, "wifiSsid"@),
        is_first_with_key(form, i_pass, "wifiPass"@),
        is_first_with_key(form, i_token, "botToken"@),
        is_first_with_key(form, i_chat, "chatId"@),
        is_first_with_key(form, i_on, "msgOn"@),
        is_first_with_key(form, i_off, "msgOff"@),
        is_first_with_key(form, i_pin, "btnPin"@),
        is_first_with_key(form, i_dim_sec, "blDimSec"@),
        is_first_with_key(form, i_full, "blFull"@),
        is_first_with_key(form, i_dim, "blDim"@),
    ensures
        ({
            &&& trimmed(form[i_ssid].1).len() > 0
            &&& trimmed(form[i_token].1).len() > 0
            &&& trimmed(form[i_chat].1).len() > 0
            &&& trimmed(form[i_on].1).len() > 0
            &&& trimmed(form[i_off].1).len() > 0
            &&& parsed_u8(trimmed(form[i_pin].1)) matches Some(pin) && pin <= 39
            &&& parsed_u32(trimmed(form[i_dim_sec].1)) matches Some(sec) && 5 <= sec <= 3600
            &&& parsed_u8(trimmed(form[i_full].1)) matches Some(full)
            &&& parsed_u8(trimmed(form[i_dim].1)) matches Some(dim) && dim < full
        }) ==> form_config(form, current) is Ok,
{
    lemma_form_lookup_first(form, "wifiSsid"@);
    lemma_form_lookup_first(form, "wifiPass"@);
    lemma_form_lookup_first(form, "botToken"@);
    lemma_form_lookup_first(form, "chatId"@);
    lemma_form_lookup_first(form, "msgOn"@);
    lemma_form_lookup_first(form, "msgOff"@);
    lemma_form_lookup_first(form, "btnPin"@);
    lemma_form_lookup_first(form, "blDimSec"@);
    lemma_form_lookup_first(form, "blFull"@);
    lemma_form_lookup_first(form, "blDim"@);
}

} // verus!
