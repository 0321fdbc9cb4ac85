use embedded_graphics::mono_font::ascii::{FONT_10X20, FONT_6X10};
use profont::PROFONT_24_POINT;
use vstd::prelude::*;
use vstd::string::{StringExecFns, StringSliceAdditionalSpecFns};

use crate::config::text_of;
use crate::logic::{
    clock_text, lemma_clock_text_len, date_of_secs, date_text, elapsed_text, format_date_from_ms, format_elapsed,
    format_time_from_ms,
};

verus! {

pub const SCREEN_W: i32 = 320;

pub const SCREEN_H: i32 = 240;

pub const Y_TOPBAR_H: i32 = 38;

pub const Y_BADGE_TOP: i32 = 44;

pub const Y_BADGE_H: i32 = 60;

pub const Y_ELAPSED_TOP: i32 = 112;

// Colours as RGB565 raw values.
pub const COL_BG: u16 = 0x0000;

pub const COL_TOPBAR: u16 = 0x0014;

pub const COL_ON_BADGE: u16 = 0x0460;

pub const COL_OFF_BADGE: u16 = 0x2104;

pub const COL_ELAPSED: u16 = 0x8C71;

pub const COL_WHITE: u16 = 0xFFFF;

pub const COL_CYAN: u16 = 0x07FF;

pub const COL_GREEN: u16 = 0x07E0;

pub const COL_DARKGREY: u16 = 0x7BEF;

pub const COL_LIGHTGREY: u16 = 0xC618;

pub const COL_YELLOW: u16 = 0xFFE0;

pub const COL_DIM_BLUE: u16 = 0x3186;

// ── Layout ───────────────────────────────────────────────────────

/// `x / 2` rounded toward zero, as Rust divides an `i32`.
pub open spec fn half_toward_zero(x: int) -> int {
    if x >= 0 {
        x / 2
    } else {
        -((-x) / 2)
    }
}

/// Character cell of `embedded_graphics::mono_font::ascii::FONT_6X10`.
/// Claimed of embedded-graphics: 6 × 10 pixels.
#[verifier::external_body]
fn small_font_cell() -> (cell: (u32, u32))
    ensures
        cell == (6u32, 10u32),
{
    (FONT_6X10.character_size.width, FONT_6X10.character_size.height)
}

/// Character cell of `embedded_graphics::mono_font::ascii::FONT_10X20`.
/// Claimed of embedded-graphics: 10 × 20 pixels.
#[verifier::external_body]
fn medium_font_cell() -> (cell: (u32, u32))
    ensures
        cell == (10u32, 20u32),
{
    (FONT_10X20.character_size.width, FONT_10X20.character_size.height)
}

/// Character cell of `profont::PROFONT_24_POINT`.
/// Claimed of profont: 16 × 29 pixels.
#[verifier::external_body]
fn large_font_cell() -> (cell: (u32, u32))
    ensures
        cell == (16u32, 29u32),
{
    (PROFONT_24_POINT.character_size.width, PROFONT_24_POINT.character_size.height)
}

/// Pixel width of a text of `len` bytes in a font `char_width` pixels
/// wide, as an `i32`.
pub open spec fn width_of(len: nat, char_width: nat) -> i32 {
    (len * char_width) as i32
}

/// Pixel width of `s` in the small font (6 pixels a byte).
pub fn text_sm_width(s: &str) -> (w: i32)
    requires
        s.spec_bytes().len() * 6 <= usize::MAX,
    ensures
        w == width_of(s.spec_bytes().len(), 6),
{
    let (cw, _) = small_font_cell();
    (#[verifier::truncate] ((s.len() * cw as usize) as i32))
}

/// Pixel width of `s` in the medium font (10 pixels a byte).
pub fn text_md_width(s: &str) -> (w: i32)
    requires
        s.spec_bytes().len() * 10 <= usize::MAX,
    ensures
        w == width_of(s.spec_bytes().len(), 10),
{
    let (cw, _) = medium_font_cell();
    (#[verifier::truncate] ((s.len() * cw as usize) as i32))
}

/// Pixel width of `s` in the large font (16 pixels a byte).
pub fn text_lg_width(s: &str) -> (w: i32)
    requires
        s.spec_bytes().len() * 16 <= usize::MAX,
    ensures
        w == width_of(s.spec_bytes().len(), 16),
{
    let (cw, _) = large_font_cell();
    (#[verifier::truncate] ((s.len() * cw as usize) as i32))
}

/// The x at which content `width` pixels wide is centred on the screen.
pub fn centered_x(width: i32) -> (x: i32)
    requires
        width >= SCREEN_W - i32::MAX,
    ensures
        x == half_toward_zero(SCREEN_W - width),
{
    (SCREEN_W - width) / 2
}

/// How the static frame is drawn for a state: badge fill and border
/// colours, the badge label and where it goes.
pub struct FrameLayout {
    pub badge_color: u16,
    pub border_color: u16,
    pub label: &'static str,
    pub label_x: i32,
    pub label_y: i32,
}

/// The badge label for a state.
pub open spec fn badge_label(state: bool) -> Seq<char> {
    if state {
        "OPEN"@
    } else {
        "CLOSE"@
    }
}

/// Lays out the state badge: the label in the large font, centred in the
/// badge.
pub fn frame_layout(state: bool) -> (l: FrameLayout)
    ensures
        l.badge_color == if state { COL_ON_BADGE } else { COL_OFF_BADGE },
        l.border_color == if state { COL_GREEN } else { COL_DARKGREY },
        l.label@ == badge_label(state),
        l.label_x == half_toward_zero(SCREEN_W - badge_label(state).len() * 16),
        l.label_y == Y_BADGE_TOP + (Y_BADGE_H - 29) / 2,
{
    let badge_color = if state { COL_ON_BADGE } else { COL_OFF_BADGE };
    let border_color = if state { COL_GREEN } else { COL_DARKGREY };
    let label = if state { "OPEN" } else { "CLOSE" };
    proof {
        reveal_strlit("OPEN");
        reveal_strlit("CLOSE");
        vstd::string::is_ascii_spec_bytes(label);
    }
    assert(label.spec_bytes().len() == badge_label(state).len());
    let tw = text_lg_width(label);
    let label_x = centered_x(tw);
    let (_, ch) = large_font_cell();
    let label_y = Y_BADGE_TOP + (Y_BADGE_H - ch as i32) / 2;
    FrameLayout { badge_color, border_color, label, label_x, label_y }
}

/// The configuration URL shown at the bottom of the frame.
pub open spec fn config_hint(device_ip: Seq<char>) -> Seq<char> {
    "Config: http://"@ + device_ip + "/"@
}

/// The configuration hint for the frame's bottom line, or nothing when the
/// device has no address.
pub fn config_hint_text(device_ip: &str) -> (hint: Option<String>)
    ensures
        hint is None <==> device_ip@.len() == 0,
        hint matches Some(h) ==> h@ == config_hint(device_ip@),
{
    if device_ip.is_empty() {
        return None;
    }
    let mut h = String::from_str("Config: http://");
    h.append(device_ip);
    h.append("/");
    Some(h)
}

/// The URL of the configuration page at `ip`.
pub open spec fn page_url(ip: Seq<char>) -> Seq<char> {
    "http://"@ + ip + "/"@
}

/// `http://<ip>/`.
pub fn page_url_text(ip: &str) -> (url: String)
    ensures
        url@ == page_url(ip@),
{
    let mut u = String::from_str("http://");
    u.append(ip);
    u.append("/");
    u
}

// ── Live zones: clock, date and time since the last toggle ───────

/// The texts last drawn in the three live zones (empty: nothing drawn yet).
pub struct LiveCache {
    prev_time: String,
    prev_date: String,
    prev_elapsed: String,
}

/// What a `LiveCache` holds: the clock, date and elapsed texts last drawn.
pub struct LiveTexts {
    pub time: Seq<char>,
    pub date: Seq<char>,
    pub elapsed: Seq<char>,
}

impl View for LiveCache {
    type V = LiveTexts;

    closed spec fn view(&self) -> LiveTexts {
        LiveTexts { time: self.prev_time@, date: self.prev_date@, elapsed: self.prev_elapsed@ }
    }
}

pub open spec fn no_live_texts() -> LiveTexts {
    LiveTexts { time: Seq::empty(), date: Seq::empty(), elapsed: Seq::empty() }
}

impl Default for LiveCache {
    fn default() -> (cache: Self)
        ensures
            cache@ == no_live_texts(),
    {
        LiveCache { prev_time: String::new(), prev_date: String::new(), prev_elapsed: String::new() }
    }
}

impl LiveCache {
    /// Forgets what was drawn, so that the next update redraws every zone.
    pub fn invalidate(&mut self)
        ensures
            final(self)@ == no_live_texts(),
    {
        self.prev_time = String::new();
        self.prev_date = String::new();
        self.prev_elapsed = String::new();
    }
}

/// The texts to redraw: `Some(text)` for each zone whose text changed.
pub struct LiveZones {
    pub time: Option<String>,
    pub date: Option<String>,
    pub elapsed: Option<String>,
}

/// The clock zone: the local time of day, or dashes without a synchronised clock.
pub open spec fn live_time(ntp_synced: bool, now_ms: nat) -> Seq<char> {
    if ntp_synced {
        clock_text(now_ms)
    } else {
        "--:--:--"@
    }
}

/// The date zone: the local date, or nothing without a synchronised clock.
pub open spec fn live_date(ntp_synced: bool, now_ms: nat) -> Seq<char> {
    if ntp_synced {
        let (d, m, y) = date_of_secs(now_ms / 1000);
        date_text(d as nat, m as int, y as nat)
    } else {
        Seq::empty()
    }
}

/// The elapsed zone: whole seconds since the last toggle (none if the
/// toggle lies in the future), or `unknown`.
pub open spec fn live_elapsed(toggled_at: Option<u64>, now_ms: nat) -> Seq<char> {
    match toggled_at {
        None => "unknown"@,
        Some(at) => elapsed_text((if now_ms >= at { (now_ms - at) as nat } else { 0 }) / 1000),
    }
}

/// `Some(text)` when the zone's text changed.
pub open spec fn redraw(now: Seq<char>, before: Seq<char>) -> Option<Seq<char>> {
    if now != before {
        Some(now)
    } else {
        None
    }
}

fn changed(cache: &mut String, now: String) -> (r: Option<String>)
    ensures
        final(cache)@ == now@,
        text_of(r) == redraw(now@, old(cache)@),
{
    if now != *cache {
        *cache = now.clone();
        Some(now)
    } else {
        None
    }
}

/// Works out the partial live-zone update (clock, date, elapsed) due every
/// second: the texts now due, and which of them differ from what the cache
/// says was drawn; the cache then holds the new texts.
pub fn update_live_zones(
    cache: &mut LiveCache,
    ntp_synced: bool,
    toggled_at: Option<u64>,
    now_ms: u64,
) -> (zones: LiveZones)
    ensures
        final(cache)@ == (LiveTexts {
            time: live_time(ntp_synced, now_ms as nat),
            date: live_date(ntp_synced, now_ms as nat),
            elapsed: live_elapsed(toggled_at, now_ms as nat),
        }),
        text_of(zones.time) == redraw(live_time(ntp_synced, now_ms as nat), old(cache)@.time),
        text_of(zones.date) == redraw(live_date(ntp_synced, now_ms as nat), old(cache)@.date),
        text_of(zones.elapsed) == redraw(
            live_elapsed(toggled_at, now_ms as nat),
            old(cache)@.elapsed,
        ),
{
    let time_str = if ntp_synced {
        format_time_from_ms(now_ms)
    } else {
        String::from_str("--:--:--")
    };
    let time = changed(&mut cache.prev_time, time_str);
    let date_str = if ntp_synced {
        format_date_from_ms(now_ms)
    } else {
        String::new()
    };
    let date = changed(&mut cache.prev_date, date_str);
    let elapsed_str = match toggled_at {
        None => String::from_str("unknown"),
        Some(at) => {
            let secs = now_ms.saturating_sub(at) / 1000;
            format_elapsed(secs)
        },
    };
    let elapsed = changed(&mut cache.prev_elapsed, elapsed_str);
    LiveZones { time, date, elapsed }
}

/// Updating again with the same inputs redraws nothing.
pub proof fn lemma_update_again_redraws_nothing(ntp_synced: bool, toggled_at: Option<u64>, now_ms: nat)
    ensures
        redraw(live_time(ntp_synced, now_ms), live_time(ntp_synced, now_ms)) is None,
        redraw(live_date(ntp_synced, now_ms), live_date(ntp_synced, now_ms)) is None,
        redraw(live_elapsed(toggled_at, now_ms), live_elapsed(toggled_at, now_ms)) is None,
{
}

/// After the cache is invalidated, the next update redraws the clock and
/// the elapsed zones, and the date zone too while the clock is synchronised.
pub proof fn lemma_invalidated_redraws(ntp_synced: bool, toggled_at: Option<u64>, now_ms: nat)
    ensures
        redraw(live_time(ntp_synced, now_ms), no_live_texts().time) is Some,
        redraw(live_elapsed(toggled_at, now_ms), no_live_texts().elapsed) is Some,
        ntp_synced ==> redraw(live_date(ntp_synced, now_ms), no_live_texts().date) is Some,
{
    reveal_strlit("--:--:--");
    reveal_strlit("unknown");
    lemma_clock_text_len(now_ms);
    assert(live_time(ntp_synced, now_ms).len() > 0);
    assert(live_elapsed(toggled_at, now_ms).len() > 0);
    if ntp_synced {
        assert(live_date(ntp_synced, now_ms).len() > 0);
    }
}

} // verus!
