use vstd::prelude::*;

use crate::config::{text_of, AppConfig, ConfigView};

verus! {

// ── Clock, LED and touch helpers ─────────────────────────────────

/// Unix time from which the wall clock counts as synchronised.
pub const TIME_VALID_AFTER: u64 = 1_700_000_000;

/// Whether the wall clock holds a plausible (synchronised) time.
pub fn is_time_valid(unix_secs: u64) -> (valid: bool)
    ensures
        valid == (unix_secs > TIME_VALID_AFTER),
{
    unix_secs > TIME_VALID_AFTER
}

/// `utc + offset`, held within `0..=u64::MAX` (`u64::saturating_add_signed`).
pub open spec fn saturating_add_signed(utc: u64, offset: i64) -> u64 {
    let sum = utc + offset;
    if sum < 0 {
        0
    } else if sum > u64::MAX {
        u64::MAX
    } else {
        sum as u64
    }
}

/// Local wall-clock milliseconds for display: UTC seconds shifted by the
/// offset, or 0 while the clock is not synchronised.
pub open spec fn local_ms(utc_secs: u64, offset_secs: i32) -> int {
    if utc_secs > TIME_VALID_AFTER {
        saturating_add_signed(utc_secs, offset_secs as i64) * 1000
    } else {
        0
    }
}

/// Converts UTC seconds to local milliseconds for display (0 while the
/// clock is not synchronised).
pub fn unix_now_local_ms(utc_secs: u64, offset_secs: i32) -> (ms: u64)
    requires
        local_ms(utc_secs, offset_secs) <= u64::MAX,
    ensures
        ms == local_ms(utc_secs, offset_secs),
{
    if utc_secs > TIME_VALID_AFTER {
        let off = offset_secs as i64;
        let shifted = match utc_secs.checked_add_signed(off) {
            Some(v) => v,
            None => if off < 0 {
                0
            } else {
                u64::MAX
            },
        };
        shifted * 1000
    } else {
        0
    }
}

/// Output levels of the RGB LED's red, green and blue pins (the LED is
/// active LOW): green lit when `on`, red and blue dark.
pub fn set_led(on: bool) -> (levels: (bool, bool, bool))
    ensures
        levels == (true, !on, true),
{
    (true, !on, true)
}

/// The touch controller's IRQ line is active LOW.
pub fn is_touched(irq_level_high: bool) -> (touched: bool)
    ensures
        touched == !irq_level_high,
{
    !irq_level_high
}

// ── Setup (access point) mode ───────────────────────────────────

/// Interval of the blue LED's blinking in setup mode.
pub const AP_BLINK_MS: u64 = 800;

/// The setup access point is open (no authentication) exactly when there
/// is no password.
pub fn ap_auth_is_open(ap_pass: &str) -> (open: bool)
    ensures
        open == (ap_pass@.len() == 0),
{
    ap_pass.is_empty()
}

/// One check of the setup-mode blink timer: the LED flips, and the timer
/// restarts, once the interval has passed.
pub fn ap_blink(led_on: bool, last_blink: u64, now: u64) -> (next: (bool, u64))
    requires
        last_blink <= now,
    ensures
        next == if now - last_blink >= AP_BLINK_MS {
            (!led_on, now)
        } else {
            (led_on, last_blink)
        },
{
    if now - last_blink >= AP_BLINK_MS {
        (!led_on, now)
    } else {
        (led_on, last_blink)
    }
}

// ── The main loop ────────────────────────────────────────────────

/// How long the switch level must hold before it counts.
pub const DEBOUNCE_MS: u64 = 50;

/// Interval of the clock / elapsed refresh.
pub const TICK_MS: u64 = 1000;

/// The state the main loop keeps between iterations (times in
/// milliseconds of the monotonic clock).
pub struct LoopState {
    /// OPEN (`true`) or CLOSED.
    pub toggle_state: bool,
    /// When the state last changed, if known.
    pub toggled_at: Option<u64>,
    pub dimmed: bool,
    pub last_activity: u64,
    /// Last level read from the switch (HIGH = released = CLOSED).
    pub last_btn_val: bool,
    pub last_btn_change: u64,
    pub last_tick: u64,
    /// The last message Telegram accepted.
    pub last_sent_text: String,
}

/// What one iteration reads: the time, the switch level, the touch state.
pub struct LoopInput {
    pub now: u64,
    pub btn_high: bool,
    pub touched: bool,
}

/// What one iteration asks the hardware to do.
pub struct LoopActions {
    /// Redraw the live zones (clock tick).
    pub refresh_live: bool,
    /// Dim the backlight (to `bl_dim`).
    pub dim: bool,
    /// Light the backlight fully (to `bl_full`), after any dimming.
    pub wake: bool,
    /// The state changed: update the LED, redraw the frame and every live zone.
    pub toggled: bool,
    /// Send this message to Telegram.
    pub send: Option<String>,
}

/// The contents of a `LoopState`.
pub struct LoopView {
    pub toggle_state: bool,
    pub toggled_at: Option<u64>,
    pub dimmed: bool,
    pub last_activity: u64,
    pub last_btn_val: bool,
    pub last_btn_change: u64,
    pub last_tick: u64,
    pub last_sent_text: Seq<char>,
}

impl View for LoopState {
    type V = LoopView;

    open spec fn view(&self) -> LoopView {
        LoopView {
            toggle_state: self.toggle_state,
            toggled_at: self.toggled_at,
            dimmed: self.dimmed,
            last_activity: self.last_activity,
            last_btn_val: self.last_btn_val,
            last_btn_change: self.last_btn_change,
            last_tick: self.last_tick,
            last_sent_text: self.last_sent_text@,
        }
    }
}

/// The contents of a `LoopActions`.
pub struct ActionsView {
    pub refresh_live: bool,
    pub dim: bool,
    pub wake: bool,
    pub toggled: bool,
    pub send: Option<Seq<char>>,
}

impl View for LoopActions {
    type V = ActionsView;

    open spec fn view(&self) -> ActionsView {
        ActionsView {
            refresh_live: self.refresh_live,
            dim: self.dim,
            wake: self.wake,
            toggled: self.toggled,
            send: text_of(self.send),
        }
    }
}

impl LoopView {
    /// All remembered times lie at or before `now`.
    pub open spec fn times_before(self, now: u64) -> bool {
        self.last_tick <= now && self.last_activity <= now && self.last_btn_change <= now
    }

    /// The times a step at `i.now` measures from lie at or before it: the
    /// last tick; the last activity while the backlight is lit; the last
    /// switch change unless the level read now differs.
    pub open spec fn can_step(self, i: LoopInput) -> bool {
        &&& self.last_tick <= i.now
        &&& !self.dimmed ==> self.last_activity <= i.now
        &&& i.btn_high == self.last_btn_val ==> self.last_btn_change <= i.now
    }
}

/// The message announcing `state`.
pub open spec fn message_of(cfg: ConfigView, state: bool) -> Seq<char> {
    if state {
        cfg.msg_on
    } else {
        cfg.msg_off
    }
}

/// One iteration of the main loop at `i.now`: the next state and the
/// actions asked for.
///
/// Every second the live zones are refreshed. After `bl_dim_ms` without
/// activity the backlight dims; a touch wakes it. The switch level counts
/// once it has held for 50 ms: LOW means OPEN. When the state changes, the
/// backlight wakes, the time of the change is kept, and the message for the
/// new state is to be sent unless it is the last one Telegram accepted.
pub open spec fn loop_step(s: LoopView, cfg: ConfigView, i: LoopInput) -> (LoopView, ActionsView) {
    let now = i.now;
    let refresh = now - s.last_tick >= TICK_MS;
    let btn_change = if i.btn_high != s.last_btn_val {
        now
    } else {
        s.last_btn_change
    };
    let toggled = now - btn_change >= DEBOUNCE_MS && !i.btn_high != s.toggle_state;
    let new_toggle = if toggled {
        !i.btn_high
    } else {
        s.toggle_state
    };
    let timed_out = !s.dimmed && now - s.last_activity >= cfg.bl_dim_ms;
    let dim = s.dimmed || timed_out;
    let woken = dim && (i.touched || toggled);
    let msg = message_of(cfg, new_toggle);
    (
        LoopView {
            toggle_state: new_toggle,
            toggled_at: if toggled {
                Some(now)
            } else {
                s.toggled_at
            },
            dimmed: dim && !woken,
            last_activity: if (dim && i.touched) || toggled {
                now
            } else {
                s.last_activity
            },
            last_btn_val: i.btn_high,
            last_btn_change: btn_change,
            last_tick: if refresh {
                now
            } else {
                s.last_tick
            },
            last_sent_text: s.last_sent_text,
        },
        ActionsView {
            refresh_live: refresh,
            dim: timed_out,
            wake: woken,
            toggled,
            send: if toggled && msg != s.last_sent_text {
                Some(msg)
            } else {
                None
            },
        },
    )
}

impl LoopState {
    /// The loop state when the main loop starts at `now`: backlight full,
    /// switch assumed released.
    pub fn start(toggle_state: bool, toggled_at: Option<u64>, last_sent_text: String, now: u64) -> (s: Self)
        ensures
            s@ == (LoopView {
                toggle_state,
                toggled_at,
                dimmed: false,
                last_activity: now,
                last_btn_val: true,
                last_btn_change: now,
                last_tick: now,
                last_sent_text: last_sent_text@,
            }),
    {
        LoopState {
            toggle_state,
            toggled_at,
            dimmed: false,
            last_activity: now,
            last_btn_val: true,
            last_btn_change: now,
            last_tick: now,
            last_sent_text,
        }
    }
}

/// The message announcing `state`.
pub fn expected_message(cfg: &AppConfig, state: bool) -> (msg: String)
    ensures
        msg@ == message_of(cfg@, state),
{
    if state {
        cfg.msg_on.clone()
    } else {
        cfg.msg_off.clone()
    }
}

/// The state restored at boot: OPEN exactly when the last message sent was
/// the OPEN message.
pub fn restored_toggle_state(cfg: &AppConfig, last_msg: &String) -> (state: bool)
    ensures
        state == (last_msg@ == cfg.msg_on@),
{
    *last_msg == cfg.msg_on
}

/// When the saved toggle happened on the millisecond clock: the wall-clock
/// age of the saved toggle time taken back from `now_ms` (at least 0), if
/// the clock is synchronised, a time was saved and it is not in the future.
pub open spec fn restored_at(ntp_synced: bool, saved_toggle_time: u32, now_secs: u64, now_ms: u64) -> Option<u64> {
    if ntp_synced && saved_toggle_time > 0 && now_secs >= saved_toggle_time {
        let age_ms = (now_secs - saved_toggle_time) * 1000;
        Some(if now_ms >= age_ms { (now_ms - age_ms) as u64 } else { 0 })
    } else {
        None
    }
}

/// Reconstructs when the last toggle happened from the wall-clock time
/// saved with it.
pub fn restored_toggled_at(ntp_synced: bool, saved_toggle_time: u32, now_secs: u64, now_ms: u64) -> (at: Option<u64>)
    requires
        ntp_synced && saved_toggle_time > 0 && now_secs >= saved_toggle_time ==> (now_secs
            - saved_toggle_time) * 1000 <= u64::MAX,
    ensures
        at == restored_at(ntp_synced, saved_toggle_time, now_secs, now_ms),
{
    if ntp_synced && saved_toggle_time > 0 {
        if now_secs >= saved_toggle_time as u64 {
            let elapsed = now_secs - saved_toggle_time as u64;
            Some(now_ms.saturating_sub(elapsed * 1000))
        } else {
            None
        }
    } else {
        None
    }
}

/// Whether Telegram has to be told `expected` because it was not the last
/// message it accepted.
pub fn needs_send(last_sent: &String, expected: &String) -> (send: bool)
    ensures
        send == (last_sent@ != expected@),
{
    *last_sent != *expected
}

/// One iteration of the main loop at `input.now` (see `loop_step`).
pub fn step(state: &mut LoopState, cfg: &AppConfig, input: LoopInput) -> (act: LoopActions)
    requires
        old(state)@.can_step(input),
    ensures
        (final(state)@, act@) == loop_step(old(state)@, cfg@, input),
{
    let now = input.now;
    let mut dim = false;
    let mut wake = false;

    // 1-second clock/elapsed tick
    let refresh_live = now - state.last_tick >= TICK_MS;
    if refresh_live {
        state.last_tick = now;
    }
    // backlight auto-dim after inactivity

    if !state.dimmed && now - state.last_activity >= cfg.bl_dim_ms as u64 {
        dim = true;
        state.dimmed = true;
    }
    // touch wakes the backlight

    if state.dimmed && input.touched {
        wake = true;
        state.dimmed = false;
        state.last_activity = now;
    }
    // switch debounce: LOW = OPEN, HIGH = CLOSED; 50 ms stable before acting

    let btn_val = input.btn_high;
    if btn_val != state.last_btn_val {
        state.last_btn_change = now;
        state.last_btn_val = btn_val;
    }
    if now - state.last_btn_change < DEBOUNCE_MS {
        return LoopActions { refresh_live, dim, wake, toggled: false, send: None };
    }
    let new_state = !btn_val;
    if new_state == state.toggle_state {
        return LoopActions { refresh_live, dim, wake, toggled: false, send: None };
    }
    // state changed: wake the screen

    if state.dimmed {
        wake = true;
        state.dimmed = false;
    }
    state.last_activity = now;
    state.toggle_state = new_state;
    state.toggled_at = Some(now);
    let new_msg = expected_message(cfg, new_state);
    let send = if new_msg != state.last_sent_text {
        Some(new_msg)
    } else {
        None
    };
    LoopActions { refresh_live, dim, wake, toggled: true, send }
}

/// Records Telegram's answer to sending `msg`: an accepted message becomes
/// the last one sent; nothing else changes.
pub fn record_send(state: &mut LoopState, msg: &String, accepted: bool)
    ensures
        final(state)@ == (LoopView {
            last_sent_text: if accepted {
                msg@
            } else {
                old(state)@.last_sent_text
            },
            ..old(state)@
        }),
{
    if accepted {
        state.last_sent_text = msg.clone();
    }
}

// ── Laws of the main loop ───────────────────────────────────────

/// A step keeps every remembered time at or before the step's time, so
/// the loop can go on with any later time.
pub proof fn lemma_step_keeps_times(s: LoopView, cfg: ConfigView, i: LoopInput, later: u64)
    requires
        s.times_before(i.now),
        i.now <= later,
    ensures
        loop_step(s, cfg, i).0.times_before(later),
{
}

/// Debouncing: a change of the switch level never takes effect in the
/// step that sees it; a step changes the state only when the level it
/// reads has held for at least 50 ms, and the new state is what that
/// level means (LOW = OPEN).
pub proof fn lemma_toggle_debounced(s: LoopView, cfg: ConfigView, i: LoopInput)
    requires
        s.times_before(i.now),
    ensures
        loop_step(s, cfg, i).1.toggled ==> {
            &&& s.last_btn_val == i.btn_high
            &&& i.now - s.last_btn_change >= DEBOUNCE_MS
            &&& loop_step(s, cfg, i).0.toggle_state == !i.btn_high
            &&& loop_step(s, cfg, i).0.toggled_at == Some(i.now)
        },
        i.btn_high != s.last_btn_val ==> !loop_step(s, cfg, i).1.toggled,
{
}

/// Once the switch has settled, the state follows it.
pub proof fn lemma_settled_switch_followed(s: LoopView, cfg: ConfigView, i: LoopInput)
    requires
        s.times_before(i.now),
        s.last_btn_val == i.btn_high,
        i.now - s.last_btn_change >= DEBOUNCE_MS,
    ensures
        loop_step(s, cfg, i).0.toggle_state == !i.btn_high,
{
}

/// The backlight is dim only after `bl_dim_ms` without activity; a touch or
/// a state change wakes a dim backlight to full brightness.
pub proof fn lemma_dim_after_inactivity(s: LoopView, cfg: ConfigView, i: LoopInput)
    requires
        s.times_before(i.now),
        s.dimmed ==> i.now - s.last_activity >= cfg.bl_dim_ms,
    ensures
        loop_step(s, cfg, i).0.dimmed ==> i.now - loop_step(s, cfg, i).0.last_activity
            >= cfg.bl_dim_ms,
        (s.dimmed && i.touched) || (loop_step(s, cfg, i).1.toggled && s.dimmed) ==> {
            &&& !loop_step(s, cfg, i).0.dimmed
            &&& loop_step(s, cfg, i).1.wake
        },
{
}

/// A state change counts as activity: after a step that changes the state,
/// the backlight is lit and its inactivity timer starts at the step's time,
/// so no later step dims it within `bl_dim_ms` of the change. A touch of a
/// dim backlight restarts the timer in the same way.
pub proof fn lemma_state_change_is_activity(s: LoopView, cfg: ConfigView, i: LoopInput, i2: LoopInput)
    requires
        s.times_before(i.now),
        i.now <= i2.now,
    ensures
        loop_step(s, cfg, i).1.toggled ==> {
            &&& loop_step(s, cfg, i).0.last_activity == i.now
            &&& !loop_step(s, cfg, i).0.dimmed
        },
        s.dimmed && i.touched ==> loop_step(s, cfg, i).0.last_activity == i.now,
        loop_step(s, cfg, i).1.toggled && i2.now - i.now < cfg.bl_dim_ms ==> {
            &&& !loop_step(loop_step(s, cfg, i).0, cfg, i2).1.dim
            &&& !loop_step(loop_step(s, cfg, i).0, cfg, i2).0.dimmed
        },
{
}

/// The timers of one step: the live zones refresh once a second has passed
/// since the last refresh; a lit backlight dims exactly when `bl_dim_ms`
/// have passed since the last activity; a dim backlight (dimmed before or
/// in this step) wakes exactly when it is touched or the state changes.
pub proof fn lemma_step_timers(s: LoopView, cfg: ConfigView, i: LoopInput)
    requires
        s.times_before(i.now),
    ensures
        loop_step(s, cfg, i).1.refresh_live == (i.now - s.last_tick >= 1000),
        loop_step(s, cfg, i).1.dim == (!s.dimmed && i.now - s.last_activity >= cfg.bl_dim_ms),
        loop_step(s, cfg, i).1.wake == ((s.dimmed || loop_step(s, cfg, i).1.dim) && (i.touched
            || loop_step(s, cfg, i).1.toggled)),
        loop_step(s, cfg, i).0.dimmed == ((s.dimmed || loop_step(s, cfg, i).1.dim) && !loop_step(
            s,
            cfg,
            i,
        ).1.wake),
{
}

/// Only a state change sends, and it sends the message for the new state,
/// never the one Telegram accepted last.
pub proof fn lemma_send_only_on_change(s: LoopView, cfg: ConfigView, i: LoopInput)
    requires
        s.times_before(i.now),
    ensures
        loop_step(s, cfg, i).1.send matches Some(m) ==> {
            &&& loop_step(s, cfg, i).1.toggled
            &&& m == message_of(cfg, loop_step(s, cfg, i).0.toggle_state)
            &&& m != s.last_sent_text
        },
        loop_step(s, cfg, i).1.toggled && message_of(cfg, loop_step(s, cfg, i).0.toggle_state)
            != s.last_sent_text ==> loop_step(s, cfg, i).1.send is Some,
{
}

/// A message Telegram accepted is not sent again by the next step.
pub proof fn lemma_accepted_not_resent(
    s: LoopView,
    cfg: ConfigView,
    i: LoopInput,
    m: Seq<char>,
    i2: LoopInput,
)
    requires
        s.times_before(i.now),
        i.now <= i2.now,
        loop_step(s, cfg, i).1.send == Some(m),
    ensures
        ({
            let after = LoopView { last_sent_text: m, ..loop_step(s, cfg, i).0 };
            loop_step(after, cfg, i2).1.send != Some(m)
        }),
{
}

} // verus!
