# kunz_presence_display

Firmware logic for a presence display: an ESP32 board with a latching switch
and a 320×240 TFT. The screen shows whether a place is OPEN or CLOSED, the
local time and date, and the time since the last change; each change is
announced to a Telegram chat. A small web page edits the configuration.

## Layout

- `src/` — the library, written in Verus and verified:
  - `calendar` — the proleptic Gregorian calendar as specification, with the
    proofs that a day number has exactly one date and that dates advance one
    day at a time;
  - `text` — decimal rendering of numbers;
  - `strings` — text utilities (trimming, number parsing, replacing) and the
    UTF-8 conversion of the standard library;
  - `logic` — time and date formatting, `unix_to_date`, form decoding, JSON
    escaping of Telegram messages;
  - `config` — the configuration, its defaults and what is kept in NVS;
  - `web` — the configuration page and the validation of a submitted form;
  - `display` — live-zone updates and screen layout;
  - `controller` — the main loop as a state machine (debounced switch,
    backlight dimming, Telegram announcements);
  - `telegram` — the Bot API request.
- `tests/` — tests of the library.
- `app/` — the firmware around the library: GPIO, display drawing, Wi-Fi,
  NVS, HTTP client and server, and the main loop that feeds the state
  machine.
