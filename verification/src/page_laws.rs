use vstd::prelude::*;

use crate::strings::replace_all;
use crate::text::{decimal, digit_char};
use crate::config::ConfigView;
use crate::web::{config_page, CONFIG_HTML};

verus! {

// ── Placeholders and the text around them ─────────────────────────

/// An uppercase ASCII letter.
pub open spec fn is_upper(c: char) -> bool {
    'A' <= c && c <= 'Z'
}

/// A placeholder of the page template: `{`, uppercase ASCII letters, `}`.
pub open spec fn is_placeholder(p: Seq<char>) -> bool {
    &&& p.len() >= 3
    &&& p[0] == '{'
    &&& p[p.len() - 1] == '}'
    &&& forall|i: int| 1 <= i < p.len() - 1 ==> is_upper(#[trigger] p[i])
}

/// No placeholder starts inside `s`: every `{` of `s` is followed, within
/// `s`, by a character that is not an uppercase letter.
pub open spec fn brace_safe(s: Seq<char>) -> bool {
    forall|j: int| 0 <= j < s.len() && #[trigger] s[j] == '{' ==> j + 1 < s.len() && !is_upper(s[j + 1])
}

/// The parts joined in order.
pub open spec fn joined(parts: Seq<Seq<char>>) -> Seq<char>
    decreases parts.len(),
{
    if parts.len() == 0 {
        seq![]
    } else {
        parts[0] + joined(parts.drop_first())
    }
}

/// Each part equal to `p` replaced by `r`.
pub open spec fn replace_parts(parts: Seq<Seq<char>>, p: Seq<char>, r: Seq<char>) -> Seq<Seq<char>> {
    parts.map_values(|q: Seq<char>| if q == p { r } else { q })
}

proof fn lemma_brace_safe_not_placeholder(q: Seq<char>, p: Seq<char>)
    requires
        brace_safe(q),
        is_placeholder(p),
    ensures
        q != p,
{
    if q == p {
        assert(q[0] == '{');
        assert(is_upper(p[1]));
    }
}

proof fn lemma_replace_skip_safe(x: Seq<char>, z: Seq<char>, p: Seq<char>, r: Seq<char>)
    requires
        brace_safe(x),
        is_placeholder(p),
    ensures
        replace_all(x + z, p, r) == x + replace_all(z, p, r),
    decreases x.len(),
{
    let s = x + z;
    if x.len() == 0 {
        assert(s =~= z);
        assert(x + replace_all(z, p, r) =~= replace_all(z, p, r));
    } else {
        if p.len() <= s.len() && s.take(p.len() as int) == p {
            assert(s.take(p.len() as int)[0] == s[0]);
            assert(s[0] == x[0]);
            assert(x[0] == '{');
            assert(s.take(p.len() as int)[1] == s[1]);
            assert(s[1] == x[1]);
            assert(is_upper(p[1]));
        }
        let x2 = x.drop_first();
        assert forall|j: int| 0 <= j < x2.len() && #[trigger] x2[j] == '{' implies j + 1 < x2.len()
            && !is_upper(x2[j + 1]) by {
            assert(x2[j] == x[j + 1]);
            assert(x[j + 2] == x2[j + 1]);
        }
        lemma_replace_skip_safe(x2, z, p, r);
        assert(s.drop_first() =~= x2 + z);
        assert(seq![x[0]] + (x2 + replace_all(z, p, r)) =~= x + replace_all(z, p, r));
    }
}

proof fn lemma_replace_hit(p: Seq<char>, z: Seq<char>, r: Seq<char>)
    requires
        p.len() > 0,
    ensures
        replace_all(p + z, p, r) == r + replace_all(z, p, r),
{
    let s = p + z;
    assert(s.take(p.len() as int) =~= p);
    assert(s.skip(p.len() as int) =~= z);
}

proof fn lemma_replace_other_placeholder(q: Seq<char>, z: Seq<char>, p: Seq<char>, r: Seq<char>)
    requires
        is_placeholder(q),
        is_placeholder(p),
        q != p,
    ensures
        replace_all(q + z, p, r) == q + replace_all(z, p, r),
{
    let s = q + z;
    if p.len() <= s.len() && s.take(p.len() as int) == p {
        let t = s.take(p.len() as int);
        if p.len() <= q.len() {
            let e = p.len() - 1;
            assert(t[e] == q[e]);
            if e < q.len() - 1 {
                assert(is_upper(q[e]));
            }
            assert(q =~= t);
        } else {
            let e = q.len() - 1;
            assert(t[e] == q[e]);
            assert(is_upper(p[e]));
        }
    }
    let q2 = q.drop_first();
    assert forall|j: int| 0 <= j < q2.len() && #[trigger] q2[j] == '{' implies j + 1 < q2.len()
        && !is_upper(q2[j + 1]) by {
        assert(q2[j] == q[j + 1]);
        if j + 1 < q.len() - 1 {
            assert(is_upper(q[j + 1]));
        }
    }
    lemma_replace_skip_safe(q2, z, p, r);
    assert(s.drop_first() =~= q2 + z);
    assert(seq![q[0]] + (q2 + replace_all(z, p, r)) =~= q + replace_all(z, p, r));
}

/// Replacing a placeholder in text made of parts that are each safe text or
/// a placeholder replaces exactly the parts equal to it.
proof fn lemma_replace_parts(parts: Seq<Seq<char>>, p: Seq<char>, r: Seq<char>)
    requires
        is_placeholder(p),
        forall|i: int| 0 <= i < parts.len() ==> brace_safe(#[trigger] parts[i]) || is_placeholder(parts[i]),
    ensures
        replace_all(joined(parts), p, r) == joined(replace_parts(parts, p, r)),
    decreases parts.len(),
{
    let out = replace_parts(parts, p, r);
    if parts.len() == 0 {
        assert(out.len() == 0);
    } else {
        let q = parts[0];
        let rest = parts.drop_first();
        assert forall|i: int| 0 <= i < rest.len() implies brace_safe(#[trigger] rest[i]) || is_placeholder(
            rest[i],
        ) by {
            assert(rest[i] == parts[i + 1]);
        }
        lemma_replace_parts(rest, p, r);
        assert(out.drop_first() =~= replace_parts(rest, p, r));
        assert(out[0] == if q == p { r } else { q });
        if q == p {
            lemma_replace_hit(p, joined(rest), r);
        } else if brace_safe(q) {
            lemma_replace_skip_safe(q, joined(rest), p, r);
        } else {
            lemma_replace_other_placeholder(q, joined(rest), p, r);
        }
    }
}

// ── Reading the template ─────────────────────────────────────────

/// `s[lo..hi]` checked character by character: every `{` is followed,
/// before `hi`, by a character that is not an uppercase letter.
spec fn safe_from(s: Seq<char>, lo: int, hi: int) -> bool
    decreases hi - lo,
{
    if lo >= hi {
        true
    } else {
        (s[lo] != '{' || (lo + 1 < hi && !is_upper(s[lo + 1]))) && safe_from(s, lo + 1, hi)
    }
}

/// `t[i..]` stands in `s` from `a + i` on, checked character by character.
spec fn agrees(s: Seq<char>, a: int, t: Seq<char>, i: int) -> bool
    decreases t.len() - i,
{
    if i >= t.len() {
        true
    } else {
        s[a + i] == t[i] && agrees(s, a, t, i + 1)
    }
}

proof fn lemma_safe_from_join(s: Seq<char>, a: int, b: int, c: int)
    requires
        a <= b <= c,
        safe_from(s, a, b),
        safe_from(s, b, c),
    ensures
        safe_from(s, a, c),
    decreases b - a,
{
    if a < b {
        lemma_safe_from_join(s, a + 1, b, c);
    }
}

proof fn lemma_safe_from_brace_safe(s: Seq<char>, lo: int, hi: int)
    requires
        0 <= lo <= hi <= s.len(),
        safe_from(s, lo, hi),
    ensures
        brace_safe(s.subrange(lo, hi)),
    decreases hi - lo,
{
    if lo < hi {
        lemma_safe_from_brace_safe(s, lo + 1, hi);
        let x = s.subrange(lo, hi);
        let x2 = s.subrange(lo + 1, hi);
        assert forall|j: int| 0 <= j < x.len() && #[trigger] x[j] == '{' implies j + 1 < x.len()
            && !is_upper(x[j + 1]) by {
            if j > 0 {
                assert(x[j] == x2[j - 1]);
                assert(x[j + 1] == x2[j]);
            } else {
                assert(x[0] == s[lo]);
                assert(x[1] == s[lo + 1]);
            }
        }
    }
}

proof fn lemma_agrees(s: Seq<char>, a: int, t: Seq<char>)
    requires
        0 <= a,
        a + t.len() <= s.len(),
        agrees(s, a, t, 0),
    ensures
        s.subrange(a, a + t.len()) == t,
{
    assert forall|i: int| 0 <= i < t.len() implies s.subrange(a, a + t.len())[i] == t[i] by {
        lemma_agrees_from(s, a, t, i);
    }
    assert(s.subrange(a, a + t.len()) =~= t);
}

proof fn lemma_agrees_from(s: Seq<char>, a: int, t: Seq<char>, i: int)
    requires
        0 <= i,
        agrees(s, a, t, 0),
    ensures
        agrees(s, a, t, i),
        i < t.len() ==> s[a + i] == t[i],
    decreases i,
{
    if i > 0 {
        lemma_agrees_from(s, a, t, i - 1);
    }
}

/// The placeholder of the template's `m`-th field, in the order the
/// fields are filled in (1 to 10).
pub open spec fn placeholder(m: int) -> Seq<char> {
    if m == 1 {
        "{WIFISSID}"@
    } else if m == 2 {
        "{WIFIPASS}"@
    } else if m == 3 {
        "{TOKEN}"@
    } else if m == 4 {
        "{CHATID}"@
    } else if m == 5 {
        "{MSGON}"@
    } else if m == 6 {
        "{MSGOFF}"@
    } else if m == 7 {
        "{BTNPIN}"@
    } else if m == 8 {
        "{BLDIMSEC}"@
    } else if m == 9 {
        "{BLFULL}"@
    } else {
        "{BLDIM}"@
    }
}

/// Where the `n`-th stretch of fixed template text begins (0 to 10).
pub open spec fn segment_start(n: int) -> int {
    if n == 0 {
        0
    } else if n == 1 {
        1529
    } else if n == 2 {
        1713
    } else if n == 3 {
        1883
    } else if n == 4 {
        2067
    } else if n == 5 {
        2215
    } else if n == 6 {
        2424
    } else if n == 7 {
        2694
    } else if n == 8 {
        2872
    } else if n == 9 {
        3081
    } else {
        3254
    }
}

/// Where the `n`-th stretch of fixed template text ends (0 to 10).
pub open spec fn segment_end(n: int) -> int {
    if n == 0 {
        1519
    } else if n == 1 {
        1703
    } else if n == 2 {
        1876
    } else if n == 3 {
        2059
    } else if n == 4 {
        2208
    } else if n == 5 {
        2416
    } else if n == 6 {
        2686
    } else if n == 7 {
        2862
    } else if n == 8 {
        3073
    } else if n == 9 {
        3247
    } else {
        3379
    }
}

/// What the template holds, read character by character.
#[verifier::rlimit(100)]
proof fn lemma_template_text()
    ensures
        CONFIG_HTML@.len() == 3379,
        brace_safe(CONFIG_HTML@.subrange(0, 1519)),
        brace_safe(CONFIG_HTML@.subrange(1529, 1703)),
        brace_safe(CONFIG_HTML@.subrange(1713, 1876)),
        brace_safe(CONFIG_HTML@.subrange(1883, 2059)),
        brace_safe(CONFIG_HTML@.subrange(2067, 2208)),
        brace_safe(CONFIG_HTML@.subrange(2215, 2416)),
        brace_safe(CONFIG_HTML@.subrange(2424, 2686)),
        brace_safe(CONFIG_HTML@.subrange(2694, 2862)),
        brace_safe(CONFIG_HTML@.subrange(2872, 3073)),
        brace_safe(CONFIG_HTML@.subrange(3081, 3247)),
        brace_safe(CONFIG_HTML@.subrange(3254, 3379)),
        CONFIG_HTML@.subrange(1519, 1529) == "{WIFISSID}"@,
        CONFIG_HTML@.subrange(1703, 1713) == "{WIFIPASS}"@,
        CONFIG_HTML@.subrange(1876, 1883) == "{TOKEN}"@,
        CONFIG_HTML@.subrange(2059, 2067) == "{CHATID}"@,
        CONFIG_HTML@.subrange(2208, 2215) == "{MSGON}"@,
        CONFIG_HTML@.subrange(2416, 2424) == "{MSGOFF}"@,
        CONFIG_HTML@.subrange(2686, 2694) == "{BTNPIN}"@,
        CONFIG_HTML@.subrange(2862, 2872) == "{BLDIMSEC}"@,
        CONFIG_HTML@.subrange(3073, 3081) == "{BLFULL}"@,
        CONFIG_HTML@.subrange(3247, 3254) == "{BLDIM}"@,
{
    reveal_strlit(r#"<!DOCTYPE html>
<html lang="en">
<head>
<meta charset="utf-8">
<meta name="viewport" content="width=device-width,initial-scale=1">
<title>Presence Display — Config</title>
<style>
  body{font-family:sans-serif;background:#111;color:#eee;display:flex;
       justify-content:center;align-items:center;min-height:100vh;margin:0}
  .card{background:#1e1e1e;border-radius:12px;padding:2rem;width:min(380px,90vw);
        box-shadow:0 4px 24px #0006}
  h1{margin:0 0 .25rem;font-size:1.3rem;color:#4af}
  h2{margin:.5rem 0 1rem;font-size:.9rem;color:#666;font-weight:normal;
     border-bottom:1px solid #333;padding-bottom:.5rem}
  label{display:block;margin-bottom:.3rem;font-size:.85rem;color:#aaa}
  .hint{font-size:.75rem;color:#555;margin-top:-.1rem;margin-bottom:1rem}
  input{width:100%;box-sizing:border-box;padding:.6rem .8rem;border-radius:6px;
        border:1px solid #444;background:#111;color:#eee;font-size:.95rem;margin-bottom:.4rem}
  input:focus{outline:none;border-color:#4af}
  .row{display:flex;gap:.75rem}
  .row input{margin-bottom:.4rem}
  .mb{margin-bottom:1.2rem}
  button{width:100%;padding:.75rem;border:none;border-radius:6px;margin-top:.8rem;
         background:#1a6fb5;color:#fff;font-size:1rem;cursor:pointer}
  button:hover{background:#2280cc}
</style>
</head>
<body>
<div class="card">
  <h1>&#9881; Device Config</h1>
  <form method="POST" action="/save">
    <h2>WiFi</h2>
    <label>SSID</label>
    <input name="wifiSsid" type="text" autocomplete="off" placeholder="MyNetwork" value="{WIFISSID}">
    <p class="hint">Takes effect after restart</p>
    <label>Password</label>
    <input name="wifiPass" type="password" autocomplete="off" placeholder="••••••••" value="{WIFIPASS}" class="mb">

    <h2>Telegram</h2>
    <label>Bot Token</label>
    <input name="botToken" type="text" autocomplete="off" placeholder="1234567890:AAB..." value="{TOKEN}">
    <p class="hint">Obtain from @BotFather on Telegram</p>
    <label>Chat ID</label>
    <input name="chatId" type="text" autocomplete="off" placeholder="123456789" value="{CHATID}" class="mb">
    <label>Open message</label>
    <input name="msgOn" type="text" autocomplete="off" placeholder="Place is now open!" value="{MSGON}">
    <p class="hint">Sent when toggled to OPEN — emoji supported</p>
    <label>Closed message</label>
    <input name="msgOff" type="text" autocomplete="off" placeholder="Place is closed :(" value="{MSGOFF}" class="mb">
    <p class="hint">Sent when toggled to CLOSED — emoji supported</p>

    <h2>Hardware</h2>
    <div class="row">
      <div style="flex:1">
        <label>Button GPIO pin</label>
        <input name="btnPin" type="number" min="0" max="39" value="{BTNPIN}" class="mb">
      </div>
      <div style="flex:1">
        <label>Dim after (seconds)</label>
        <input name="blDimSec" type="number" min="5" max="3600" value="{BLDIMSEC}" class="mb">
      </div>
    </div>
    <div class="row">
      <div style="flex:1">
        <label>Backlight full (0-255)</label>
        <input name="blFull" type="number" min="0" max="255" value="{BLFULL}" class="mb">
      </div>
      <div style="flex:1">
        <label>Backlight dim (0-255)</label>
        <input name="blDim" type="number" min="0" max="255" value="{BLDIM}" class="mb">
      </div>
    </div>

    <button type="submit">Save &amp; Restart</button>
  </form>
</div>
</body>
</html>"#);
    assert(CONFIG_HTML@ == r#"<!DOCTYPE html>
<html lang="en">
<head>
<meta charset="utf-8">
<meta name="viewport" content="width=device-width,initial-scale=1">
<title>Presence Display — Config</title>
<style>
  body{font-family:sans-serif;background:#111;color:#eee;display:flex;
       justify-content:center;align-items:center;min-height:100vh;margin:0}
  .card{background:#1e1e1e;border-radius:12px;padding:2rem;width:min(380px,90vw);
        box-shadow:0 4px 24px #0006}
  h1{margin:0 0 .25rem;font-size:1.3rem;color:#4af}
  h2{margin:.5rem 0 1rem;font-size:.9rem;color:#666;font-weight:normal;
     border-bottom:1px solid #333;padding-bottom:.5rem}
  label{display:block;margin-bottom:.3rem;font-size:.85rem;color:#aaa}
  .hint{font-size:.75rem;color:#555;margin-top:-.1rem;margin-bottom:1rem}
  input{width:100%;box-sizing:border-box;padding:.6rem .8rem;border-radius:6px;
        border:1px solid #444;background:#111;color:#eee;font-size:.95rem;margin-bottom:.4rem}
  input:focus{outline:none;border-color:#4af}
  .row{display:flex;gap:.75rem}
  .row input{margin-bottom:.4rem}
  .mb{margin-bottom:1.2rem}
  button{width:100%;padding:.75rem;border:none;border-radius:6px;margin-top:.8rem;
         background:#1a6fb5;color:#fff;font-size:1rem;cursor:pointer}
  button:hover{background:#2280cc}
</style>
</head>
<body>
<div class="card">
  <h1>&#9881; Device Config</h1>
  <form method="POST" action="/save">
    <h2>WiFi</h2>
    <label>SSID</label>
    <input name="wifiSsid" type="text" autocomplete="off" placeholder="MyNetwork" value="{WIFISSID}">
    <p class="hint">Takes effect after restart</p>
    <label>Password</label>
    <input name="wifiPass" type="password" autocomplete="off" placeholder="••••••••" value="{WIFIPASS}" class="mb">

    <h2>Telegram</h2>
    <label>Bot Token</label>
    <input name="botToken" type="text" autocomplete="off" placeholder="1234567890:AAB..." value="{TOKEN}">
    <p class="hint">Obtain from @BotFather on Telegram</p>
    <label>Chat ID</label>
    <input name="chatId" type="text" autocomplete="off" placeholder="123456789" value="{CHATID}" class="mb">
    <label>Open message</label>
    <input name="msgOn" type="text" autocomplete="off" placeholder="Place is now open!" value="{MSGON}">
    <p class="hint">Sent when toggled to OPEN — emoji supported</p>
    <label>Closed message</label>
    <input name="msgOff" type="text" autocomplete="off" placeholder="Place is closed :(" value="{MSGOFF}" class="mb">
    <p class="hint">Sent when toggled to CLOSED — emoji supported</p>

    <h2>Hardware</h2>
    <div class="row">
      <div style="flex:1">
        <label>Button GPIO pin</label>
        <input name="btnPin" type="number" min="0" max="39" value="{BTNPIN}" class="mb">
      </div>
      <div style="flex:1">
        <label>Dim after (seconds)</label>
        <input name="blDimSec" type="number" min="5" max="3600" value="{BLDIMSEC}" class="mb">
      </div>
    </div>
    <div class="row">
      <div style="flex:1">
        <label>Backlight full (0-255)</label>
        <input name="blFull" type="number" min="0" max="255" value="{BLFULL}" class="mb">
      </div>
      <div style="flex:1">
        <label>Backlight dim (0-255)</label>
        <input name="blDim" type="number" min="0" max="255" value="{BLDIM}" class="mb">
      </div>
    </div>

    <button type="submit">Save &amp; Restart</button>
  </form>
</div>
</body>
</html>"#@);
    reveal_strlit("{WIFISSID}");
    reveal_strlit("{WIFIPASS}");
    reveal_strlit("{TOKEN}");
    reveal_strlit("{CHATID}");
    reveal_strlit("{MSGON}");
    reveal_strlit("{MSGOFF}");
    reveal_strlit("{BTNPIN}");
    reveal_strlit("{BLDIMSEC}");
    reveal_strlit("{BLFULL}");
    reveal_strlit("{BLDIM}");
    assert(safe_from(CONFIG_HTML@, 0, 80)) by {
        reveal_with_fuel(safe_from, 81);
    }
    assert(safe_from(CONFIG_HTML@, 80, 160)) by {
        reveal_with_fuel(safe_from, 81);
    }
    assert(safe_from(CONFIG_HTML@, 160, 240)) by {
        reveal_with_fuel(safe_from, 81);
    }
    assert(safe_from(CONFIG_HTML@, 240, 320)) by {
        reveal_with_fuel(safe_from, 81);
    }
    assert(safe_from(CONFIG_HTML@, 320, 400)) by {
        reveal_with_fuel(safe_from, 81);
    }
    assert(safe_from(CONFIG_HTML@, 400, 480)) by {
        reveal_with_fuel(safe_from, 81);
    }
    assert(safe_from(CONFIG_HTML@, 480, 560)) by {
        reveal_with_fuel(safe_from, 81);
    }
    assert(safe_from(CONFIG_HTML@, 560, 640)) by {
        reveal_with_fuel(safe_from, 81);
    }
    assert(safe_from(CONFIG_HTML@, 640, 720)) by {
        reveal_with_fuel(safe_from, 81);
    }
    assert(safe_from(CONFIG_HTML@, 720, 800)) by {
        reveal_with_fuel(safe_from, 81);
    }
    assert(safe_from(CONFIG_HTML@, 800, 880)) by {
        reveal_with_fuel(safe_from, 81);
    }
    assert(safe_from(CONFIG_HTML@, 880, 961)) by {
        reveal_with_fuel(safe_from, 82);
    }
    assert(safe_from(CONFIG_HTML@, 961, 1041)) by {
        reveal_with_fuel(safe_from, 81);
    }
    assert(safe_from(CONFIG_HTML@, 1041, 1121)) by {
        reveal_with_fuel(safe_from, 81);
    }
    assert(safe_from(CONFIG_HTML@, 1121, 1201)) by {
        reveal_with_fuel(safe_from, 81);
    }
    assert(safe_from(CONFIG_HTML@, 1201, 1281)) by {
        reveal_with_fuel(safe_from, 81);
    }
    assert(safe_from(CONFIG_HTML@, 1281, 1361)) by {
        reveal_with_fuel(safe_from, 81);
    }
    assert(safe_from(CONFIG_HTML@, 1361, 1441)) by {
        reveal_with_fuel(safe_from, 81);
    }
    assert(safe_from(CONFIG_HTML@, 1441, 1519)) by {
        reveal_with_fuel(safe_from, 79);
    }
    assert(safe_from(CONFIG_HTML@, 1529, 1609)) by {
        reveal_with_fuel(safe_from, 81);
    }
    assert(safe_from(CONFIG_HTML@, 1609, 1689)) by {
        reveal_with_fuel(safe_from, 81);
    }
    assert(safe_from(CONFIG_HTML@, 1689, 1703)) by {
        reveal_with_fuel(safe_from, 15);
    }
    assert(safe_from(CONFIG_HTML@, 1713, 1793)) by {
        reveal_with_fuel(safe_from, 81);
    }
    assert(safe_from(CONFIG_HTML@, 1793, 1873)) by {
        reveal_with_fuel(safe_from, 81);
    }
    assert(safe_from(CONFIG_HTML@, 1873, 1876)) by {
        reveal_with_fuel(safe_from, 4);
    }
    assert(safe_from(CONFIG_HTML@, 1883, 1963)) by {
        reveal_with_fuel(safe_from, 81);
    }
    assert(safe_from(CONFIG_HTML@, 1963, 2043)) by {
        reveal_with_fuel(safe_from, 81);
    }
    assert(safe_from(CONFIG_HTML@, 2043, 2059)) by {
        reveal_with_fuel(safe_from, 17);
    }
    assert(safe_from(CONFIG_HTML@, 2067, 2147)) by {
        reveal_with_fuel(safe_from, 81);
    }
    assert(safe_from(CONFIG_HTML@, 2147, 2208)) by {
        reveal_with_fuel(safe_from, 62);
    }
    assert(safe_from(CONFIG_HTML@, 2215, 2295)) by {
        reveal_with_fuel(safe_from, 81);
    }
    assert(safe_from(CONFIG_HTML@, 2295, 2375)) by {
        reveal_with_fuel(safe_from, 81);
    }
    assert(safe_from(CONFIG_HTML@, 2375, 2416)) by {
        reveal_with_fuel(safe_from, 42);
    }
    assert(safe_from(CONFIG_HTML@, 2424, 2504)) by {
        reveal_with_fuel(safe_from, 81);
    }
    assert(safe_from(CONFIG_HTML@, 2504, 2584)) by {
        reveal_with_fuel(safe_from, 81);
    }
    assert(safe_from(CONFIG_HTML@, 2584, 2664)) by {
        reveal_with_fuel(safe_from, 81);
    }
    assert(safe_from(CONFIG_HTML@, 2664, 2686)) by {
        reveal_with_fuel(safe_from, 23);
    }
    assert(safe_from(CONFIG_HTML@, 2694, 2774)) by {
        reveal_with_fuel(safe_from, 81);
    }
    assert(safe_from(CONFIG_HTML@, 2774, 2854)) by {
        reveal_with_fuel(safe_from, 81);
    }
    assert(safe_from(CONFIG_HTML@, 2854, 2862)) by {
        reveal_with_fuel(safe_from, 9);
    }
    assert(safe_from(CONFIG_HTML@, 2872, 2952)) by {
        reveal_with_fuel(safe_from, 81);
    }
    assert(safe_from(CONFIG_HTML@, 2952, 3032)) by {
        reveal_with_fuel(safe_from, 81);
    }
    assert(safe_from(CONFIG_HTML@, 3032, 3073)) by {
        reveal_with_fuel(safe_from, 42);
    }
    assert(safe_from(CONFIG_HTML@, 3081, 3161)) by {
        reveal_with_fuel(safe_from, 81);
    }
    assert(safe_from(CONFIG_HTML@, 3161, 3241)) by {
        reveal_with_fuel(safe_from, 81);
    }
    assert(safe_from(CONFIG_HTML@, 3241, 3247)) by {
        reveal_with_fuel(safe_from, 7);
    }
    assert(safe_from(CONFIG_HTML@, 3254, 3334)) by {
        reveal_with_fuel(safe_from, 81);
    }
    assert(safe_from(CONFIG_HTML@, 3334, 3379)) by {
        reveal_with_fuel(safe_from, 46);
    }
    lemma_safe_from_join(CONFIG_HTML@, 0, 80, 160);
    lemma_safe_from_join(CONFIG_HTML@, 0, 160, 240);
    lemma_safe_from_join(CONFIG_HTML@, 0, 240, 320);
    lemma_safe_from_join(CONFIG_HTML@, 0, 320, 400);
    lemma_safe_from_join(CONFIG_HTML@, 0, 400, 480);
    lemma_safe_from_join(CONFIG_HTML@, 0, 480, 560);
    lemma_safe_from_join(CONFIG_HTML@, 0, 560, 640);
    lemma_safe_from_join(CONFIG_HTML@, 0, 640, 720);
    lemma_safe_from_join(CONFIG_HTML@, 0, 720, 800);
    lemma_safe_from_join(CONFIG_HTML@, 0, 800, 880);
    lemma_safe_from_join(CONFIG_HTML@, 0, 880, 961);
    lemma_safe_from_join(CONFIG_HTML@, 0, 961, 1041);
    lemma_safe_from_join(CONFIG_HTML@, 0, 1041, 1121);
    lemma_safe_from_join(CONFIG_HTML@, 0, 1121, 1201);
    lemma_safe_from_join(CONFIG_HTML@, 0, 1201, 1281);
    lemma_safe_from_join(CONFIG_HTML@, 0, 1281, 1361);
    lemma_safe_from_join(CONFIG_HTML@, 0, 1361, 1441);
    lemma_safe_from_join(CONFIG_HTML@, 0, 1441, 1519);
    lemma_safe_from_join(CONFIG_HTML@, 1529, 1609, 1689);
    lemma_safe_from_join(CONFIG_HTML@, 1529, 1689, 1703);
    lemma_safe_from_join(CONFIG_HTML@, 1713, 1793, 1873);
    lemma_safe_from_join(CONFIG_HTML@, 1713, 1873, 1876);
    lemma_safe_from_join(CONFIG_HTML@, 1883, 1963, 2043);
    lemma_safe_from_join(CONFIG_HTML@, 1883, 2043, 2059);
    lemma_safe_from_join(CONFIG_HTML@, 2067, 2147, 2208);
    lemma_safe_from_join(CONFIG_HTML@, 2215, 2295, 2375);
    lemma_safe_from_join(CONFIG_HTML@, 2215, 2375, 2416);
    lemma_safe_from_join(CONFIG_HTML@, 2424, 2504, 2584);
    lemma_safe_from_join(CONFIG_HTML@, 2424, 2584, 2664);
    lemma_safe_from_join(CONFIG_HTML@, 2424, 2664, 2686);
    lemma_safe_from_join(CONFIG_HTML@, 2694, 2774, 2854);
    lemma_safe_from_join(CONFIG_HTML@, 2694, 2854, 2862);
    lemma_safe_from_join(CONFIG_HTML@, 2872, 2952, 3032);
    lemma_safe_from_join(CONFIG_HTML@, 2872, 3032, 3073);
    lemma_safe_from_join(CONFIG_HTML@, 3081, 3161, 3241);
    lemma_safe_from_join(CONFIG_HTML@, 3081, 3241, 3247);
    lemma_safe_from_join(CONFIG_HTML@, 3254, 3334, 3379);
    lemma_safe_from_brace_safe(CONFIG_HTML@, 0, 1519);
    lemma_safe_from_brace_safe(CONFIG_HTML@, 1529, 1703);
    lemma_safe_from_brace_safe(CONFIG_HTML@, 1713, 1876);
    lemma_safe_from_brace_safe(CONFIG_HTML@, 1883, 2059);
    lemma_safe_from_brace_safe(CONFIG_HTML@, 2067, 2208);
    lemma_safe_from_brace_safe(CONFIG_HTML@, 2215, 2416);
    lemma_safe_from_brace_safe(CONFIG_HTML@, 2424, 2686);
    lemma_safe_from_brace_safe(CONFIG_HTML@, 2694, 2862);
    lemma_safe_from_brace_safe(CONFIG_HTML@, 2872, 3073);
    lemma_safe_from_brace_safe(CONFIG_HTML@, 3081, 3247);
    lemma_safe_from_brace_safe(CONFIG_HTML@, 3254, 3379);
    assert(agrees(CONFIG_HTML@, 1519, "{WIFISSID}"@, 0)) by {
        reveal_with_fuel(agrees, 11);
    }
    lemma_agrees(CONFIG_HTML@, 1519, "{WIFISSID}"@);
    assert(agrees(CONFIG_HTML@, 1703, "{WIFIPASS}"@, 0)) by {
        reveal_with_fuel(agrees, 11);
    }
    lemma_agrees(CONFIG_HTML@, 1703, "{WIFIPASS}"@);
    assert(agrees(CONFIG_HTML@, 1876, "{TOKEN}"@, 0)) by {
        reveal_with_fuel(agrees, 8);
    }
    lemma_agrees(CONFIG_HTML@, 1876, "{TOKEN}"@);
    assert(agrees(CONFIG_HTML@, 2059, "{CHATID}"@, 0)) by {
        reveal_with_fuel(agrees, 9);
    }
    lemma_agrees(CONFIG_HTML@, 2059, "{CHATID}"@);
    assert(agrees(CONFIG_HTML@, 2208, "{MSGON}"@, 0)) by {
        reveal_with_fuel(agrees, 8);
    }
    lemma_agrees(CONFIG_HTML@, 2208, "{MSGON}"@);
    assert(agrees(CONFIG_HTML@, 2416, "{MSGOFF}"@, 0)) by {
        reveal_with_fuel(agrees, 9);
    }
    lemma_agrees(CONFIG_HTML@, 2416, "{MSGOFF}"@);
    assert(agrees(CONFIG_HTML@, 2686, "{BTNPIN}"@, 0)) by {
        reveal_with_fuel(agrees, 9);
    }
    lemma_agrees(CONFIG_HTML@, 2686, "{BTNPIN}"@);
    assert(agrees(CONFIG_HTML@, 2862, "{BLDIMSEC}"@, 0)) by {
        reveal_with_fuel(agrees, 11);
    }
    lemma_agrees(CONFIG_HTML@, 2862, "{BLDIMSEC}"@);
    assert(agrees(CONFIG_HTML@, 3073, "{BLFULL}"@, 0)) by {
        reveal_with_fuel(agrees, 9);
    }
    lemma_agrees(CONFIG_HTML@, 3073, "{BLFULL}"@);
    assert(agrees(CONFIG_HTML@, 3247, "{BLDIM}"@, 0)) by {
        reveal_with_fuel(agrees, 8);
    }
    lemma_agrees(CONFIG_HTML@, 3247, "{BLDIM}"@);
}

/// The template: 3379 characters, the ten placeholders at fixed places, and
/// fixed text between them in which no placeholder starts.
proof fn lemma_template_layout()
    ensures
        CONFIG_HTML@.len() == 3379,
        forall|n: int| 0 <= n <= 10 ==> segment_start(n) <= segment_end(n),
        forall|m: int| 1 <= m <= 10 ==> segment_end(m - 1) + placeholder(m).len() == segment_start(m),
        segment_start(0) == 0,
        segment_end(10) == 3379,
        forall|n: int| 0 <= n <= 10 ==> brace_safe(#[trigger] CONFIG_HTML@.subrange(segment_start(n), segment_end(n))),
        forall|m: int| 1 <= m <= 10 ==> CONFIG_HTML@.subrange(segment_end(m - 1), segment_start(m)) == #[trigger] placeholder(m),
{
    lemma_template_text();
    reveal_strlit("{WIFISSID}");
    reveal_strlit("{WIFIPASS}");
    reveal_strlit("{TOKEN}");
    reveal_strlit("{CHATID}");
    reveal_strlit("{MSGON}");
    reveal_strlit("{MSGOFF}");
    reveal_strlit("{BTNPIN}");
    reveal_strlit("{BLDIMSEC}");
    reveal_strlit("{BLFULL}");
    reveal_strlit("{BLDIM}");
    assert forall|n: int| 0 <= n <= 10 implies brace_safe(#[trigger] CONFIG_HTML@.subrange(segment_start(n), segment_end(n))) by {
        if n == 0 {} else if n == 1 {} else if n == 2 {} else if n == 3 {} else if n == 4 {} else if n == 5 {} else if n == 6 {} else if n == 7 {} else if n == 8 {} else if n == 9 {} else if n == 10 {}
    }
    assert forall|m: int| 1 <= m <= 10 implies CONFIG_HTML@.subrange(segment_end(m - 1), segment_start(m)) == #[trigger] placeholder(m) by {
        if m == 1 {} else if m == 2 {} else if m == 3 {} else if m == 4 {} else if m == 5 {} else if m == 6 {} else if m == 7 {} else if m == 8 {} else if m == 9 {} else if m == 10 {}
    }
}

// ── The placeholders ─────────────────────────────────────────────

/// `p[i..p.len() - 1]` are uppercase letters, checked one by one.
spec fn upper_between(p: Seq<char>, i: int) -> bool
    decreases p.len() - 1 - i,
{
    if i >= p.len() - 1 {
        true
    } else {
        is_upper(p[i]) && upper_between(p, i + 1)
    }
}

proof fn lemma_upper_between(p: Seq<char>, i: int)
    requires
        1 <= i,
        upper_between(p, 1),
    ensures
        upper_between(p, i),
        i < p.len() - 1 ==> is_upper(p[i]),
    decreases i,
{
    if i > 1 {
        lemma_upper_between(p, i - 1);
    }
}

/// The ten placeholders are placeholders, and no two are alike.
proof fn lemma_placeholders()
    ensures
        forall|m: int| 1 <= m <= 10 ==> is_placeholder(#[trigger] placeholder(m)),
        forall|m: int, n: int|
            1 <= m <= 10 && 1 <= n <= 10 && m != n ==> #[trigger] placeholder(m) != #[trigger] placeholder(n),
{
    reveal_strlit("{WIFISSID}");
    reveal_strlit("{WIFIPASS}");
    reveal_strlit("{TOKEN}");
    reveal_strlit("{CHATID}");
    reveal_strlit("{MSGON}");
    reveal_strlit("{MSGOFF}");
    reveal_strlit("{BTNPIN}");
    reveal_strlit("{BLDIMSEC}");
    reveal_strlit("{BLFULL}");
    reveal_strlit("{BLDIM}");
    assert forall|m: int| 1 <= m <= 10 implies is_placeholder(#[trigger] placeholder(m)) by {
        let p = placeholder(m);
        assert(upper_between(p, 1)) by {
            reveal_with_fuel(upper_between, 10);
        }
        assert forall|i: int| 1 <= i < p.len() - 1 implies is_upper(#[trigger] p[i]) by {
            lemma_upper_between(p, i);
        }
    }
    assert forall|m: int, n: int|
        1 <= m <= 10 && 1 <= n <= 10 && m != n implies #[trigger] placeholder(m) != #[trigger] placeholder(n) by {
        let p = placeholder(m);
        let q = placeholder(n);
        if p == q {
            assert(p.len() == q.len());
            assert(p[1] == q[1]);
            assert(p[2] == q[2]);
            assert(p[5] == q[5]);
        }
    }
}

proof fn lemma_decimal_no_brace(n: nat)
    ensures
        forall|j: int| 0 <= j < decimal(n).len() ==> #[trigger] decimal(n)[j] != '{',
    decreases n,
{
    if n >= 10 {
        lemma_decimal_no_brace(n / 10);
        let d = decimal(n / 10);
        let c = digit_char(n % 10);
        assert(c != '{');
        assert forall|j: int| 0 <= j < d.push(c).len() implies #[trigger] d.push(c)[j] != '{' by {
            if j < d.len() {
                assert(d.push(c)[j] == d[j]);
            }
        }
    } else {
        assert(digit_char(n) != '{');
    }
}

// ── Filling in the template ──────────────────────────────────────

/// The `n`-th stretch of fixed template text.
spec fn segment(n: int) -> Seq<char> {
    CONFIG_HTML@.subrange(segment_start(n), segment_end(n))
}

/// What stands in place of the `m`-th placeholder once the first `k`
/// have been filled in with `vals`.
spec fn slot(vals: Seq<Seq<char>>, k: int, m: int) -> Seq<char> {
    if m <= k {
        vals[m - 1]
    } else {
        placeholder(m)
    }
}

/// The page as parts, once the first `k` placeholders have been filled in.
spec fn stage(vals: Seq<Seq<char>>, k: int) -> Seq<Seq<char>> {
    seq![
        segment(0),
        slot(vals, k, 1),
        segment(1),
        slot(vals, k, 2),
        segment(2),
        slot(vals, k, 3),
        segment(3),
        slot(vals, k, 4),
        segment(4),
        slot(vals, k, 5),
        segment(5),
        slot(vals, k, 6),
        segment(6),
        slot(vals, k, 7),
        segment(7),
        slot(vals, k, 8),
        segment(8),
        slot(vals, k, 9),
        segment(9),
        slot(vals, k, 10),
        segment(10),
    ]
}

/// Where the parts of the unfilled template begin and end.
spec fn boundaries() -> Seq<int> {
    Seq::new(22, |i: int| if i % 2 == 0 { segment_start(i / 2) } else { segment_end((i - 1) / 2) })
}

/// Part `i` is `s[bps[i]..bps[i + 1]]`.
spec fn piece_at(s: Seq<char>, bps: Seq<int>, parts: Seq<Seq<char>>, i: int) -> bool {
    bps[i] <= bps[i + 1] && parts[i] == s.subrange(bps[i], bps[i + 1])
}

proof fn lemma_joined_subranges(s: Seq<char>, bps: Seq<int>, parts: Seq<Seq<char>>)
    requires
        parts.len() + 1 == bps.len(),
        forall|i: int| 0 <= i <= parts.len() ==> 0 <= #[trigger] bps[i] <= s.len(),
        forall|i: int| 0 <= i < parts.len() ==> #[trigger] piece_at(s, bps, parts, i),
    ensures
        bps[0] <= bps[parts.len() as int],
        joined(parts) == s.subrange(bps[0], bps[parts.len() as int]),
    decreases parts.len(),
{
    if parts.len() == 0 {
        assert(s.subrange(bps[0], bps[0]) =~= Seq::<char>::empty());
    } else {
        let n = parts.len() as int;
        let b2 = bps.drop_first();
        let p2 = parts.drop_first();
        assert forall|i: int| 0 <= i <= p2.len() implies 0 <= #[trigger] b2[i] <= s.len() by {
            assert(b2[i] == bps[i + 1]);
        }
        assert forall|i: int| 0 <= i < p2.len() implies #[trigger] piece_at(s, b2, p2, i) by {
            assert(piece_at(s, bps, parts, i + 1));
            assert(p2[i] == parts[i + 1]);
            assert(b2[i] == bps[i + 1] && b2[i + 1] == bps[i + 2]);
        }
        lemma_joined_subranges(s, b2, p2);
        assert(piece_at(s, bps, parts, 0));
        assert(b2[p2.len() as int] == bps[n]);
        assert(joined(parts) == parts[0] + joined(p2));
        assert(0 <= bps[0] && bps[n] <= s.len());
        assert(bps[0] <= bps[1]);
        assert(s.subrange(bps[0], bps[1]) + s.subrange(bps[1], bps[n]) =~= s.subrange(bps[0], bps[n]));
    }
}

/// The unfilled template, as parts.
proof fn lemma_stage_zero(vals: Seq<Seq<char>>)
    ensures
        joined(stage(vals, 0)) == CONFIG_HTML@,
{
    lemma_template_layout();
    let bps = boundaries();
    let parts = stage(vals, 0);
    assert forall|i: int| 0 <= i <= parts.len() implies 0 <= #[trigger] bps[i] <= 3379 by {
        if i == 21 {} else if i == 0 {} else if i == 1 {} else if i == 2 {} else if i == 3 {} else if i == 4 {} else if i == 5 {} else if i == 6 {} else if i == 7 {} else if i == 8 {} else if i == 9 {} else if i == 10 {} else if i == 11 {} else if i == 12 {} else if i == 13 {} else if i == 14 {} else if i == 15 {} else if i == 16 {} else if i == 17 {} else if i == 18 {} else if i == 19 {} else if i == 20 {}
    }
    assert forall|i: int| 0 <= i < parts.len() implies #[trigger] piece_at(CONFIG_HTML@, bps, parts, i) by {
        if i == 0 {} else if i == 1 {} else if i == 2 {} else if i == 3 {} else if i == 4 {} else if i == 5 {} else if i == 6 {} else if i == 7 {} else if i == 8 {} else if i == 9 {} else if i == 10 {} else if i == 11 {} else if i == 12 {} else if i == 13 {} else if i == 14 {} else if i == 15 {} else if i == 16 {} else if i == 17 {} else if i == 18 {} else if i == 19 {} else if i == 20 {}
    }
    lemma_joined_subranges(CONFIG_HTML@, bps, parts);
    assert(CONFIG_HTML@.subrange(0, 3379) =~= CONFIG_HTML@);
}

/// Filling in the `k`-th placeholder turns the page after `k - 1` fields
/// into the page after `k`.
proof fn lemma_stage_step(vals: Seq<Seq<char>>, k: int)
    requires
        vals.len() == 10,
        1 <= k <= 10,
        forall|m: int| 0 <= m < 10 ==> brace_safe(#[trigger] vals[m]),
    ensures
        replace_all(joined(stage(vals, k - 1)), placeholder(k), vals[k - 1]) == joined(stage(vals, k)),
{
    lemma_template_layout();
    lemma_placeholders();
    let p = placeholder(k);
    let parts = stage(vals, k - 1);
    assert forall|i: int| 0 <= i < parts.len() implies brace_safe(#[trigger] parts[i]) || is_placeholder(
        parts[i],
    ) by {
        if i == 0 {} else if i == 1 {} else if i == 2 {} else if i == 3 {} else if i == 4 {} else if i == 5 {} else if i == 6 {} else if i == 7 {} else if i == 8 {} else if i == 9 {} else if i == 10 {} else if i == 11 {} else if i == 12 {} else if i == 13 {} else if i == 14 {} else if i == 15 {} else if i == 16 {} else if i == 17 {} else if i == 18 {} else if i == 19 {} else if i == 20 {}
    }
    lemma_replace_parts(parts, p, vals[k - 1]);
    let out = replace_parts(parts, p, vals[k - 1]);
    assert forall|i: int| 0 <= i < out.len() implies #[trigger] out[i] == stage(vals, k)[i] by {
        if parts[i] != p {
            if brace_safe(parts[i]) {
                lemma_brace_safe_not_placeholder(parts[i], p);
            }
        }
        if i == 0 {} else if i == 1 {} else if i == 2 {} else if i == 3 {} else if i == 4 {} else if i == 5 {} else if i == 6 {} else if i == 7 {} else if i == 8 {} else if i == 9 {} else if i == 10 {} else if i == 11 {} else if i == 12 {} else if i == 13 {} else if i == 14 {} else if i == 15 {} else if i == 16 {} else if i == 17 {} else if i == 18 {} else if i == 19 {} else if i == 20 {}
    }
    assert(out =~= stage(vals, k));
}

/// The configuration page shows each value in the place of the placeholder
/// that names it, and changes nothing else of the template: where no
/// placeholder can start inside one of the six text values (each `{` in
/// them is followed by a character that is not an uppercase letter, so
/// that none spells a placeholder filled in after it), the page is the
/// template's fixed text with,
/// between its stretches, the SSID, the WiFi password, the bot token, the
/// chat id, the OPEN message, the CLOSED message, the button pin, the dim
/// timeout in seconds, the full and the dim brightness.
pub proof fn lemma_config_page_fields(cfg: ConfigView)
    requires
        brace_safe(cfg.wifi_ssid),
        brace_safe(cfg.wifi_pass),
        brace_safe(cfg.bot_token),
        brace_safe(cfg.chat_id),
        brace_safe(cfg.msg_on),
        brace_safe(cfg.msg_off),
    ensures
        CONFIG_HTML@.subrange(1519, 1529) == "{WIFISSID}"@,
        CONFIG_HTML@.subrange(1703, 1713) == "{WIFIPASS}"@,
        CONFIG_HTML@.subrange(1876, 1883) == "{TOKEN}"@,
        CONFIG_HTML@.subrange(2059, 2067) == "{CHATID}"@,
        CONFIG_HTML@.subrange(2208, 2215) == "{MSGON}"@,
        CONFIG_HTML@.subrange(2416, 2424) == "{MSGOFF}"@,
        CONFIG_HTML@.subrange(2686, 2694) == "{BTNPIN}"@,
        CONFIG_HTML@.subrange(2862, 2872) == "{BLDIMSEC}"@,
        CONFIG_HTML@.subrange(3073, 3081) == "{BLFULL}"@,
        CONFIG_HTML@.subrange(3247, 3254) == "{BLDIM}"@,
        config_page(cfg) == joined(
            seq![
                CONFIG_HTML@.subrange(0, 1519),
                cfg.wifi_ssid,
                CONFIG_HTML@.subrange(1529, 1703),
                cfg.wifi_pass,
                CONFIG_HTML@.subrange(1713, 1876),
                cfg.bot_token,
                CONFIG_HTML@.subrange(1883, 2059),
                cfg.chat_id,
                CONFIG_HTML@.subrange(2067, 2208),
                cfg.msg_on,
                CONFIG_HTML@.subrange(2215, 2416),
                cfg.msg_off,
                CONFIG_HTML@.subrange(2424, 2686),
                decimal(cfg.btn_pin as nat),
                CONFIG_HTML@.subrange(2694, 2862),
                decimal(cfg.bl_dim_ms as nat / 1000),
                CONFIG_HTML@.subrange(2872, 3073),
                decimal(cfg.bl_full as nat),
                CONFIG_HTML@.subrange(3081, 3247),
                decimal(cfg.bl_dim as nat),
                CONFIG_HTML@.subrange(3254, 3379),
            ],
        ),
{
    let vals: Seq<Seq<char>> = seq![
        cfg.wifi_ssid,
        cfg.wifi_pass,
        cfg.bot_token,
        cfg.chat_id,
        cfg.msg_on,
        cfg.msg_off,
        decimal(cfg.btn_pin as nat),
        decimal(cfg.bl_dim_ms as nat / 1000),
        decimal(cfg.bl_full as nat),
        decimal(cfg.bl_dim as nat),
    ];
    lemma_template_layout();
    lemma_decimal_no_brace(cfg.btn_pin as nat);
    lemma_decimal_no_brace(cfg.bl_dim_ms as nat / 1000);
    lemma_decimal_no_brace(cfg.bl_full as nat);
    lemma_decimal_no_brace(cfg.bl_dim as nat);
    assert forall|m: int| 0 <= m < 10 implies brace_safe(#[trigger] vals[m]) by {
        if m >= 6 {
            assert(forall|j: int| 0 <= j < vals[m].len() ==> #[trigger] vals[m][j] != '{');
        }
    }
    lemma_stage_zero(vals);
    lemma_stage_step(vals, 1);
    lemma_stage_step(vals, 2);
    lemma_stage_step(vals, 3);
    lemma_stage_step(vals, 4);
    lemma_stage_step(vals, 5);
    lemma_stage_step(vals, 6);
    lemma_stage_step(vals, 7);
    lemma_stage_step(vals, 8);
    lemma_stage_step(vals, 9);
    lemma_stage_step(vals, 10);
    assert(stage(vals, 10) =~= seq![
        CONFIG_HTML@.subrange(0, 1519),
        cfg.wifi_ssid,
        CONFIG_HTML@.subrange(1529, 1703),
        cfg.wifi_pass,
        CONFIG_HTML@.subrange(1713, 1876),
        cfg.bot_token,
        CONFIG_HTML@.subrange(1883, 2059),
        cfg.chat_id,
        CONFIG_HTML@.subrange(2067, 2208),
        cfg.msg_on,
        CONFIG_HTML@.subrange(2215, 2416),
        cfg.msg_off,
        CONFIG_HTML@.subrange(2424, 2686),
        decimal(cfg.btn_pin as nat),
        CONFIG_HTML@.subrange(2694, 2862),
        decimal(cfg.bl_dim_ms as nat / 1000),
        CONFIG_HTML@.subrange(2872, 3073),
        decimal(cfg.bl_full as nat),
        CONFIG_HTML@.subrange(3081, 3247),
        decimal(cfg.bl_dim as nat),
        CONFIG_HTML@.subrange(3254, 3379),
    ]);
    assert(CONFIG_HTML@.subrange(segment_end(0), segment_start(1)) == placeholder(1));
    assert(CONFIG_HTML@.subrange(segment_end(1), segment_start(2)) == placeholder(2));
    assert(CONFIG_HTML@.subrange(segment_end(2), segment_start(3)) == placeholder(3));
    assert(CONFIG_HTML@.subrange(segment_end(3), segment_start(4)) == placeholder(4));
    assert(CONFIG_HTML@.subrange(segment_end(4), segment_start(5)) == placeholder(5));
    assert(CONFIG_HTML@.subrange(segment_end(5), segment_start(6)) == placeholder(6));
    assert(CONFIG_HTML@.subrange(segment_end(6), segment_start(7)) == placeholder(7));
    assert(CONFIG_HTML@.subrange(segment_end(7), segment_start(8)) == placeholder(8));
    assert(CONFIG_HTML@.subrange(segment_end(8), segment_start(9)) == placeholder(9));
    assert(CONFIG_HTML@.subrange(segment_end(9), segment_start(10)) == placeholder(10));
}

} // verus!
