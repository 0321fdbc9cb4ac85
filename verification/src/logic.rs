use vstd::prelude::*;

use crate::calendar::{civil_from_days, lemma_civil_algorithm, lemma_civil_from_days};
use crate::text::{
    decimal, digit_char, lemma_decimal_len_bound, push_char, push_decimal, push_zero_padded, zero_padded,
};
use crate::strings::{lossy_text, string_from_utf8_lossy};
use vstd::string::StringExecFns;
use vstd::utf8::{encode_scalar, encode_utf8, has_width_1_encoding};

verus! {

// ── Elapsed / clock / date formatting ──────────────────────────

/// The text shown for a duration of `total` seconds: days, hours, minutes
/// and seconds, leaving out leading units that are zero (minutes and
/// seconds are always shown).
pub open spec fn elapsed_text(total: nat) -> Seq<char> {
    let s = total % 60;
    let m = (total / 60) % 60;
    let h = (total / 3600) % 24;
    let d = total / 86400;
    if d > 0 {
        decimal(d) + seq!['d', ' '] + zero_padded(h, 2) + seq!['h', ' '] + zero_padded(m, 2) + seq![
            'm',
            ' ',
        ] + zero_padded(s, 2) + seq!['s']
    } else if h > 0 {
        decimal(h) + seq!['h', ' '] + zero_padded(m, 2) + seq!['m', ' '] + zero_padded(s, 2) + seq![
            's',
        ]
    } else {
        zero_padded(m, 2) + seq!['m', ' '] + zero_padded(s, 2) + seq!['s']
    }
}

/// `HH:MM:SS` of the time of day `ms` milliseconds after midnight of day 0.
pub open spec fn clock_text(ms: nat) -> Seq<char> {
    let secs = ms / 1000;
    zero_padded((secs / 3600) % 24, 2) + seq![':'] + zero_padded((secs / 60) % 60, 2) + seq![':']
        + zero_padded(secs % 60, 2)
}

/// Three-letter English abbreviation of month `m` (1 = January).
pub open spec fn month_abbrev(m: int) -> Seq<char> {
    if m == 1 {
        seq!['J', 'a', 'n']
    } else if m == 2 {
        seq!['F', 'e', 'b']
    } else if m == 3 {
        seq!['M', 'a', 'r']
    } else if m == 4 {
        seq!['A', 'p', 'r']
    } else if m == 5 {
        seq!['M', 'a', 'y']
    } else if m == 6 {
        seq!['J', 'u', 'n']
    } else if m == 7 {
        seq!['J', 'u', 'l']
    } else if m == 8 {
        seq!['A', 'u', 'g']
    } else if m == 9 {
        seq!['S', 'e', 'p']
    } else if m == 10 {
        seq!['O', 'c', 't']
    } else if m == 11 {
        seq!['N', 'o', 'v']
    } else {
        seq!['D', 'e', 'c']
    }
}

/// `DD Mon YYYY` for a day, month and (32-bit) year.
pub open spec fn date_text(day: nat, month: int, year: nat) -> Seq<char> {
    zero_padded(day, 2) + seq![' '] + month_abbrev(month) + seq![' '] + zero_padded(year, 4)
}

/// The calendar date, as `unix_to_date` returns it, of the day holding
/// Unix time `secs`.
pub open spec fn date_of_secs(secs: nat) -> (u32, u32, u32) {
    let (y, m, d) = civil_from_days((secs / 86400) as int);
    (d as u32, m as u32, y as u32)
}

/// Formats a duration in seconds as `"Dd HHh MMm SSs"`, `"Hh MMm SSs"` or
/// `"MMm SSs"`, whichever is the shortest that shows every non-zero unit.
pub fn format_elapsed(total_secs: u64) -> (text: String)
    ensures
        text@ == elapsed_text(total_secs as nat),
{
    let s = total_secs % 60;
    let m = (total_secs / 60) % 60;
    let h = (total_secs / 3600) % 24;
    let d = total_secs / 86400;
    let mut out = String::new();
    if d > 0 {
        push_decimal(&mut out, d);
        push_char(&mut out, 'd');
        push_char(&mut out, ' ');
        push_zero_padded(&mut out, h, 2);
        push_char(&mut out, 'h');
        push_char(&mut out, ' ');
    } else if h > 0 {
        push_decimal(&mut out, h);
        push_char(&mut out, 'h');
        push_char(&mut out, ' ');
    }
    push_zero_padded(&mut out, m, 2);
    push_char(&mut out, 'm');
    push_char(&mut out, ' ');
    push_zero_padded(&mut out, s, 2);
    push_char(&mut out, 's');
    assert(out@ =~= elapsed_text(total_secs as nat));
    out
}

/// Formats the time of day of a millisecond timestamp as `HH:MM:SS`
/// (the hour wraps at 24).
pub fn format_time_from_ms(ms: u64) -> (text: String)
    ensures
        text@ == clock_text(ms as nat),
{
    let secs = ms / 1000;
    let h = (secs / 3600) % 24;
    let m = (secs / 60) % 60;
    let s = secs % 60;
    let mut out = String::new();
    push_zero_padded(&mut out, h, 2);
    push_char(&mut out, ':');
    push_zero_padded(&mut out, m, 2);
    push_char(&mut out, ':');
    push_zero_padded(&mut out, s, 2);
    assert(out@ =~= clock_text(ms as nat));
    out
}

fn push_month_abbrev(out: &mut String, month: u32)
    ensures
        final(out)@ == old(out)@ + month_abbrev(month as int),
{
    let (a, b, c) = if month == 1 {
        ('J', 'a', 'n')
    } else if month == 2 {
        ('F', 'e', 'b')
    } else if month == 3 {
        ('M', 'a', 'r')
    } else if month == 4 {
        ('A', 'p', 'r')
    } else if month == 5 {
        ('M', 'a', 'y')
    } else if month == 6 {
        ('J', 'u', 'n')
    } else if month == 7 {
        ('J', 'u', 'l')
    } else if month == 8 {
        ('A', 'u', 'g')
    } else if month == 9 {
        ('S', 'e', 'p')
    } else if month == 10 {
        ('O', 'c', 't')
    } else if month == 11 {
        ('N', 'o', 'v')
    } else {
        ('D', 'e', 'c')
    };
    push_char(out, a);
    push_char(out, b);
    push_char(out, c);
    assert(final(out)@ =~= old(out)@ + month_abbrev(month as int));
}

/// Formats the calendar date of a millisecond Unix timestamp as
/// `DD Mon YYYY`.
pub fn format_date_from_ms(ms: u64) -> (text: String)
    ensures
        ({
            let (d, m, y) = date_of_secs(ms as nat / 1000);
            text@ == date_text(d as nat, m as int, y as nat)
        }),
{
    let (day, month, year) = unix_to_date(ms / 1000);
    let mut out = String::new();
    push_zero_padded(&mut out, day as u64, 2);
    push_char(&mut out, ' ');
    push_month_abbrev(&mut out, month);
    push_char(&mut out, ' ');
    push_zero_padded(&mut out, year as u64, 4);
    assert(out@ =~= date_text(day as nat, month as int, year as nat));
    out
}

/// Proleptic Gregorian calendar. Returns (day, month, year), all 1-based,
/// of the day that holds Unix time `secs`; the year is kept modulo 2^32.
pub fn unix_to_date(secs: u64) -> (date: (u32, u32, u32))
    ensures
        date == date_of_secs(secs as nat),
{
    let days = secs / 86400;
    proof {
        lemma_civil_algorithm(days as int);
        lemma_civil_from_days(days as int);
    }
    let z = days + 719_468;
    let era = z / 146_097;
    let doe = z - era * 146_097;
    let yoe = (doe - doe / 1_460 + doe / 36_524 - doe / 146_096) / 365;
    let y = yoe + era * 400;
    let doy = doe - (365 * yoe + yoe / 4 - yoe / 100);
    let mp = (5 * doy + 2) / 153;
    let d = doy - (153 * mp + 2) / 5 + 1;
    let m = if mp < 10 { mp + 3 } else { mp - 9 };
    let y = if m <= 2 { y + 1 } else { y };
    (d as u32, m as u32, y as u32)
}

// ── URL / form decoding ─────────────────────────────────────────

/// The value of an ASCII hexadecimal digit (either case).
pub open spec fn hex_digit_value(b: u8) -> Option<u8> {
    if '0' as u8 <= b <= '9' as u8 {
        Some((b - '0' as u8) as u8)
    } else if 'a' as u8 <= b <= 'f' as u8 {
        Some((b - 'a' as u8 + 10) as u8)
    } else if 'A' as u8 <= b <= 'F' as u8 {
        Some((b - 'A' as u8 + 10) as u8)
    } else {
        None
    }
}

/// Percent-decoding of form bytes: `+` stands for a space, `%` followed by two
/// hex digits for the byte they spell; anything else, a malformed `%`
/// included, stands for itself.
pub open spec fn percent_decode(s: Seq<u8>) -> Seq<u8>
    decreases s.len(),
{
    if s.len() == 0 {
        seq![]
    } else if s[0] == '+' as u8 {
        seq![' ' as u8] + percent_decode(s.drop_first())
    } else if s[0] == '%' as u8 && s.len() > 2 && hex_digit_value(s[1]) is Some
        && hex_digit_value(s[2]) is Some {
        seq![(hex_digit_value(s[1])->0 * 16 + hex_digit_value(s[2])->0) as u8] + percent_decode(
            s.skip(3),
        )
    } else {
        seq![s[0]] + percent_decode(s.drop_first())
    }
}

/// What `url_decode` makes of the text `s`: its UTF-8 bytes, percent-decoded,
/// read back as UTF-8 (invalid sequences replaced).
pub open spec fn url_decoded(s: Seq<char>) -> Seq<char> {
    lossy_text(percent_decode(encode_utf8(s)))
}

const PLUS: u8 = 0x2b;

const PERCENT: u8 = 0x25;

const SPACE: u8 = 0x20;

fn hex_val(b: u8) -> (v: Option<u8>)
    ensures
        v == hex_digit_value(b),
{
    if 0x30 <= b && b <= 0x39 {
        Some(b - 0x30)
    } else if 0x61 <= b && b <= 0x66 {
        Some(b - 0x61 + 10)
    } else if 0x41 <= b && b <= 0x46 {
        Some(b - 0x41 + 10)
    } else {
        None
    }
}

/// Decodes one `application/x-www-form-urlencoded` component.
/// Malformed percent-sequences are passed through unchanged; multi-byte
/// UTF-8 sequences (e.g. emoji) are decoded as a whole.
pub fn url_decode(s: &str) -> (decoded: String)
    ensures
        decoded@ == url_decoded(s@),
{
    let src = s.as_bytes();
    let mut bytes: Vec<u8> = Vec::new();
    let mut i: usize = 0;
    assert(src@.skip(0) =~= src@);
    while i < src.len()
        invariant
            0 <= i <= src@.len(),
            percent_decode(src@) == bytes@ + percent_decode(src@.skip(i as int)),
        decreases src@.len() - i,
    {
        let ghost rest = src@.skip(i as int);
        let b = src[i];
        if b == PLUS {
            bytes.push(SPACE);
            i = i + 1;
            assert(rest.drop_first() =~= src@.skip(i as int));
        } else if b == PERCENT && src.len() - i > 2 {
            let hi = hex_val(src[i + 1]);
            let lo = hex_val(src[i + 2]);
            if hi.is_some() && lo.is_some() {
                let h = hi.unwrap();
                let l = lo.unwrap();
                assert(h < 16 && l < 16);
                assert((h << 4 | l) == h * 16 + l) by (bit_vector)
                    requires
                        h < 16 && l < 16,
                ;
                bytes.push(h << 4 | l);
                i = i + 3;
                assert(rest.skip(3) =~= src@.skip(i as int));
            } else {
                bytes.push(PERCENT);
                i = i + 1;
                assert(rest.drop_first() =~= src@.skip(i as int));
            }
        } else {
            bytes.push(b);
            i = i + 1;
            assert(rest.drop_first() =~= src@.skip(i as int));
        }
        assert(percent_decode(src@) =~= bytes@ + percent_decode(src@.skip(i as int)));
    }
    assert(src@.skip(i as int) =~= Seq::<u8>::empty());
    assert(bytes@ =~= percent_decode(src@));
    string_from_utf8_lossy(bytes.as_slice())
}

/// `s.split(sep)`: the pieces of `s` between occurrences of `sep` (one
/// piece, possibly empty, more than there are separators).
pub open spec fn split_on(s: Seq<char>, sep: char) -> Seq<Seq<char>>
    decreases s.len(),
{
    if s.len() == 0 {
        seq![seq![]]
    } else {
        let pieces = split_on(s.drop_last(), sep);
        if s.last() == sep {
            pieces.push(seq![])
        } else {
            pieces.update(pieces.len() - 1, pieces.last().push(s.last()))
        }
    }
}

/// `part.splitn(2, '=')`: the text before the first `=`, and the text after
/// it (empty when there is no `=`).
pub open spec fn split_key_value(part: Seq<char>) -> (Seq<char>, Seq<char>)
    decreases part.len(),
{
    if part.len() == 0 {
        (seq![], seq![])
    } else if part[0] == '=' {
        (seq![], part.drop_first())
    } else {
        let (k, v) = split_key_value(part.drop_first());
        (seq![part[0]] + k, v)
    }
}

/// The decoded key/value pair of one `&`-separated part of a form, or
/// nothing when its key decodes to the empty text.
pub open spec fn form_field(part: Seq<char>) -> Option<(Seq<char>, Seq<char>)> {
    let (k, v) = split_key_value(part);
    let key = url_decoded(k);
    if key.len() == 0 {
        None
    } else {
        Some((key, url_decoded(v)))
    }
}

/// The pairs of a sequence of form parts, in order, parts without a key left out.
pub open spec fn form_fields(parts: Seq<Seq<char>>) -> Seq<(Seq<char>, Seq<char>)>
    decreases parts.len(),
{
    if parts.len() == 0 {
        seq![]
    } else {
        let earlier = form_fields(parts.drop_last());
        match form_field(parts.last()) {
            Some(pair) => earlier.push(pair),
            None => earlier,
        }
    }
}

/// The key/value pairs of a form body: its bytes read as UTF-8 (invalid
/// sequences replaced), split at `&`, each part split at its first `=`.
pub open spec fn form_pairs(body: Seq<u8>) -> Seq<(Seq<char>, Seq<char>)> {
    form_fields(split_on(lossy_text(body), '&'))
}

/// The texts held by a list of string pairs.
pub open spec fn pair_texts(pairs: Seq<(String, String)>) -> Seq<(Seq<char>, Seq<char>)> {
    pairs.map_values(|p: (String, String)| (p.0@, p.1@))
}

proof fn lemma_split_on_nonempty(s: Seq<char>, sep: char)
    ensures
        split_on(s, sep).len() >= 1,
    decreases s.len(),
{
    if s.len() > 0 {
        lemma_split_on_nonempty(s.drop_last(), sep);
    }
}

/// When the first character is not `c`, dropping it does not change
/// whether `c` occurs.
proof fn lemma_contains_drop_first(part: Seq<char>, c: char)
    requires
        part.len() > 0,
        part[0] != c,
    ensures
        part.contains(c) == part.drop_first().contains(c),
{
    if part.contains(c) {
        let j = choose|j: int| 0 <= j < part.len() && part[j] == c;
        assert(part.drop_first()[j - 1] == c);
    }
    if part.drop_first().contains(c) {
        let j = choose|j: int| 0 <= j < part.drop_first().len() && part.drop_first()[j] == c;
        assert(part[j + 1] == c);
    }
}

/// Appending a character to a part extends its value once an `=` has been
/// seen, and its key otherwise.
proof fn lemma_split_key_value_push(part: Seq<char>, c: char)
    ensures
        ({
            let (k, v) = split_key_value(part);
            split_key_value(part.push(c)) == if part.contains('=') {
                (k, v.push(c))
            } else if c == '=' {
                (k, v)
            } else {
                (k.push(c), v)
            }
        }),
        !part.contains('=') ==> split_key_value(part) == (part, Seq::<char>::empty()),
    decreases part.len(),
{
    let pc = part.push(c);
    if part.len() == 0 {
        assert(pc.drop_first() =~= Seq::<char>::empty());
        assert(split_key_value(pc.drop_first()) == (Seq::<char>::empty(), Seq::<char>::empty()));
        assert(pc[0] == c);
        assert(!part.contains('='));
        assert(split_key_value(part) == (Seq::<char>::empty(), Seq::<char>::empty()));
        if c == '=' {
            assert(split_key_value(pc) == (Seq::<char>::empty(), Seq::<char>::empty()));
        } else {
            assert(split_key_value(pc) == (seq![c] + Seq::<char>::empty(), Seq::<char>::empty()));
            assert(seq![c] + Seq::<char>::empty() =~= Seq::<char>::empty().push(c));
        }
    } else {
        let rest = part.drop_first();
        lemma_split_key_value_push(rest, c);
        assert(pc.drop_first() =~= rest.push(c));
        assert(pc[0] == part[0]);
        if part[0] == '=' {
            assert(part.contains('='));
            let (k, v) = split_key_value(part);
            assert(k =~= Seq::<char>::empty());
            assert(v =~= rest);
            assert(split_key_value(pc) == (Seq::<char>::empty(), rest.push(c)));
        } else {
            lemma_contains_drop_first(part, '=');
            let (k1, v1) = split_key_value(rest);
            let (k2, v2) = split_key_value(rest.push(c));
            assert(split_key_value(part) == (seq![part[0]] + k1, v1));
            assert(split_key_value(pc) == (seq![part[0]] + k2, v2));
            assert(seq![part[0]] + k1.push(c) =~= (seq![part[0]] + k1).push(c));
            if !part.contains('=') {
                assert(seq![part[0]] + rest =~= part);
            }
        }
    }
}

fn push_form_field(pairs: &mut Vec<(String, String)>, key_raw: &String, val_raw: &String)
    ensures
        pair_texts(final(pairs)@) == match form_field_of(key_raw@, val_raw@) {
            Some(pair) => pair_texts(old(pairs)@).push(pair),
            None => pair_texts(old(pairs)@),
        },
{
    let key = url_decode(key_raw.as_str());
    if key.as_str().is_empty() {
        return;
    }
    let val = url_decode(val_raw.as_str());
    pairs.push((key, val));
    assert(pair_texts(final(pairs)@) =~= pair_texts(old(pairs)@).push((key@, val@)));
}

/// The pair made of a raw key and value, as `form_field` makes it.
pub open spec fn form_field_of(k: Seq<char>, v: Seq<char>) -> Option<(Seq<char>, Seq<char>)> {
    let key = url_decoded(k);
    if key.len() == 0 {
        None
    } else {
        Some((key, url_decoded(v)))
    }
}

/// Decodes an `application/x-www-form-urlencoded` body into key/value pairs,
/// in the order they appear; parts whose key decodes to nothing are skipped.
/// Malformed percent-sequences are passed through unchanged; multi-byte
/// UTF-8 sequences (e.g. emoji) are decoded correctly.
pub fn parse_form_urlencoded(body: &[u8]) -> (pairs: Vec<(String, String)>)
    ensures
        pair_texts(pairs@) == form_pairs(body@),
{
    let s = string_from_utf8_lossy(body);
    let mut pairs: Vec<(String, String)> = Vec::new();
    let mut key_raw = String::new();
    let mut val_raw = String::new();
    let mut seen_eq = false;
    assert(s@.take(0) =~= Seq::<char>::empty());
    for ch in it: s.as_str().chars()
        invariant
            it.seq() == s@,
            split_on(s@.take(it.index()), '&').len() >= 1,
            pair_texts(pairs@) == form_fields(split_on(s@.take(it.index()), '&').drop_last()),
            split_key_value(split_on(s@.take(it.index()), '&').last()) == (key_raw@, val_raw@),
            seen_eq == split_on(s@.take(it.index()), '&').last().contains('='),
    {
        let ghost prefix = s@.take(it.index());
        let ghost pieces = split_on(prefix, '&');
        let ghost next = s@.take(it.index() + 1);
        assert(next.drop_last() =~= prefix);
        assert(next.last() == ch);
        proof {
            lemma_split_on_nonempty(prefix, '&');
        }
        if ch == '&' {
            assert(split_on(next, '&') == pieces.push(seq![]));
            assert(pieces.push(seq![]).drop_last() =~= pieces);
            assert(pieces =~= pieces.drop_last().push(pieces.last()));
            push_form_field(&mut pairs, &key_raw, &val_raw);
            key_raw = String::new();
            val_raw = String::new();
            seen_eq = false;
            assert(!Seq::<char>::empty().contains('='));
        } else {
            let ghost last = pieces.last();
            proof {
                lemma_split_key_value_push(last, ch);
            }
            assert(split_on(next, '&') == pieces.update(pieces.len() - 1, last.push(ch)));
            assert(pieces.update(pieces.len() - 1, last.push(ch)).drop_last() =~= pieces.drop_last());
            if seen_eq {
                push_char(&mut val_raw, ch);
            } else if ch == '=' {
                seen_eq = true;
            } else {
                push_char(&mut key_raw, ch);
            }
            assert(last.push(ch).contains('=') == (last.contains('=') || ch == '=')) by {
                if last.push(ch).contains('=') && ch != '=' {
                    let j = choose|j: int| 0 <= j < last.push(ch).len() && last.push(ch)[j] == '=';
                    assert(last[j] == '=');
                }
                if last.contains('=') {
                    let j = choose|j: int| 0 <= j < last.len() && last[j] == '=';
                    assert(last.push(ch)[j] == '=');
                }
                if ch == '=' {
                    assert(last.push(ch)[last.len() as int] == '=');
                }
            }
        }
    }
    assert(s@.take(s@.len() as int) =~= s@);
    let ghost pieces = split_on(s@, '&');
    assert(pieces =~= pieces.drop_last().push(pieces.last()));
    push_form_field(&mut pairs, &key_raw, &val_raw);
    pairs
}

// ── Telegram JSON helpers ───────────────────────────────────────

/// How one character is written inside a JSON string literal.
pub open spec fn escape_char(c: char) -> Seq<char> {
    if c == '"' {
        seq!['\\', '"']
    } else if c == '\\' {
        seq!['\\', '\\']
    } else if c == '\n' {
        seq!['\\', 'n']
    } else if c == '\r' {
        seq!['\\', 'r']
    } else if c == '\t' {
        seq!['\\', 't']
    } else {
        seq![c]
    }
}

/// `s` with each character escaped for a JSON string literal.
pub open spec fn json_escaped(s: Seq<char>) -> Seq<char>
    decreases s.len(),
{
    if s.len() == 0 {
        seq![]
    } else {
        json_escaped(s.drop_last()) + escape_char(s.last())
    }
}

/// The Bot API `sendMessage` request body for `text` sent to `chat_id`.
pub open spec fn telegram_json(chat_id: Seq<char>, text: Seq<char>) -> Seq<char> {
    seq!['{', '"', 'c', 'h', 'a', 't', '_', 'i', 'd', '"', ':', '"'] + chat_id + seq![
        '"',
        ',',
        '"',
        't',
        'e',
        'x',
        't',
        '"',
        ':',
        '"',
    ] + json_escaped(text) + seq!['"', '}']
}

/// Builds the JSON body `{"chat_id":"<chat_id>","text":"<text>"}`, with
/// `text` escaped.
pub fn build_telegram_json(chat_id: &str, text: &str) -> (json: String)
    ensures
        json@ == telegram_json(chat_id@, text@),
{
    let mut out = String::new();
    let open = "{\"chat_id\":\"";
    let middle = "\",\"text\":\"";
    let close = "\"}";
    proof {
        reveal_strlit("{\"chat_id\":\"");
        reveal_strlit("\",\"text\":\"");
        reveal_strlit("\"}");
    }
    out.append(open);
    out.append(chat_id);
    out.append(middle);
    let escaped = json_escape(text);
    out.append(escaped.as_str());
    out.append(close);
    assert(out@ =~= telegram_json(chat_id@, text@));
    out
}

/// Escapes `"`, `\`, newline, carriage return and tab for a JSON string
/// literal; every other character is kept as it is.
pub fn json_escape(s: &str) -> (out: String)
    ensures
        out@ == json_escaped(s@),
{
    let mut out = String::new();
    for ch in it: s.chars()
        invariant
            it.seq() == s@,
            out@ == json_escaped(s@.take(it.index())),
    {
        assert(s@.take(it.index() + 1).drop_last() =~= s@.take(it.index()));
        if ch == '"' {
            push_char(&mut out, '\\');
            push_char(&mut out, '"');
        } else if ch == '\\' {
            push_char(&mut out, '\\');
            push_char(&mut out, '\\');
        } else if ch == '\n' {
            push_char(&mut out, '\\');
            push_char(&mut out, 'n');
        } else if ch == '\r' {
            push_char(&mut out, '\\');
            push_char(&mut out, 'r');
        } else if ch == '\t' {
            push_char(&mut out, '\\');
            push_char(&mut out, 't');
        } else {
            push_char(&mut out, ch);
        }
    }
    assert(s@.take(s@.len() as int) =~= s@);
    out
}

// ── Laws ─────────────────────────────────────────────────────────

proof fn lemma_two_digits(n: nat)
    requires
        n < 100,
    ensures
        zero_padded(n, 2).len() == 2,
{
    lemma_decimal_len_bound(n);
}

/// `n` (below 100) as two ASCII digits.
pub open spec fn two_ascii_digits(n: nat) -> Seq<char> {
    seq![((48 + n / 10) as char), ((48 + n % 10) as char)]
}

proof fn lemma_zero_padded_two(n: nat)
    requires
        n < 100,
    ensures
        zero_padded(n, 2) == two_ascii_digits(n),
{
    if n < 10 {
        assert(decimal(n) == seq![digit_char(n)]);
        assert(Seq::new(1, |_i: int| '0') + seq![digit_char(n)] =~= two_ascii_digits(n));
    } else {
        assert(n / 10 < 10);
        assert(decimal(n / 10) == seq![digit_char(n / 10)]);
        assert(decimal(n) == seq![digit_char(n / 10)].push(digit_char(n % 10)));
        assert(seq![digit_char(n / 10)].push(digit_char(n % 10)) =~= two_ascii_digits(n));
    }
}

/// The elapsed text always ends in the minutes and the seconds, each as two
/// digits: `MMm SSs`. Under an hour that is all of it; under a day the
/// hours come first, unpadded (`Hh `); from a day on, the days (`Dd `) and
/// then the hours as two digits (`HHh `).
pub proof fn lemma_elapsed_text_fields(total: nat)
    ensures
        ({
            let t = elapsed_text(total);
            let tail = two_ascii_digits((total / 60) % 60) + seq!['m', ' '] + two_ascii_digits(
                total % 60,
            ) + seq!['s'];
            &&& t.len() >= 7
            &&& t.subrange(t.len() - 7, t.len() as int) == tail
            &&& total < 3600 ==> t == tail
            &&& 3600 <= total < 86400 ==> t == decimal(total / 3600) + seq!['h', ' '] + tail
            &&& total >= 86400 ==> t == decimal(total / 86400) + seq!['d', ' '] + two_ascii_digits(
                (total / 3600) % 24,
            ) + seq!['h', ' '] + tail
        }),
{
    let sec = total % 60;
    let m = (total / 60) % 60;
    let h = (total / 3600) % 24;
    let d = total / 86400;
    lemma_zero_padded_two(sec);
    lemma_zero_padded_two(m);
    lemma_zero_padded_two(h);
    let t = elapsed_text(total);
    let tail = two_ascii_digits(m) + seq!['m', ' '] + two_ascii_digits(sec) + seq!['s'];
    assert(tail.len() == 7);
    if d > 0 {
        let head = decimal(d) + seq!['d', ' '] + two_ascii_digits(h) + seq!['h', ' '];
        assert(t =~= head + tail);
        assert(t.subrange(t.len() - 7, t.len() as int) =~= tail);
    } else if h > 0 {
        assert(total / 3600 < 24);
        assert(h == total / 3600);
        let head = decimal(h) + seq!['h', ' '];
        assert(t =~= head + tail);
        assert(t.subrange(t.len() - 7, t.len() as int) =~= tail);
    } else {
        assert(t =~= tail);
        assert(t.subrange(t.len() - 7, t.len() as int) =~= tail);
        assert(total < 3600);
    }
}

/// The clock always shows eight characters, `HH:MM:SS`.
pub proof fn lemma_clock_text_len(ms: nat)
    ensures
        clock_text(ms).len() == 8,
{
    let secs = ms / 1000;
    lemma_two_digits((secs / 3600) % 24);
    lemma_two_digits((secs / 60) % 60);
    lemma_two_digits(secs % 60);
}

/// The clock repeats every 24 hours.
pub proof fn lemma_clock_text_daily(ms: nat)
    ensures
        clock_text(ms + 86_400_000) == clock_text(ms),
{
    let secs = ms / 1000;
    let secs2 = (ms + 86_400_000) / 1000;
    assert(secs2 == secs + 86400);
    assert(secs2 / 3600 == secs / 3600 + 24);
    assert((secs2 / 3600) % 24 == (secs / 3600) % 24);
    assert(secs2 / 60 == secs / 60 + 1440);
    assert((secs2 / 60) % 60 == (secs / 60) % 60);
    assert(secs2 % 60 == secs % 60);
}

/// Bytes that are neither `%` nor `+` stand for themselves.
pub open spec fn is_plain_byte(b: u8) -> bool {
    b != '%' as u8 && b != '+' as u8
}

proof fn lemma_percent_decode_plain(b: Seq<u8>)
    requires
        forall|i: int| 0 <= i < b.len() ==> is_plain_byte(#[trigger] b[i]),
    ensures
        percent_decode(b) == b,
    decreases b.len(),
{
    if b.len() > 0 {
        assert(is_plain_byte(b[0]));
        lemma_percent_decode_plain(b.drop_first());
        assert(seq![b[0]] + b.drop_first() =~= b);
    }
}

proof fn lemma_scalar_plain(c: char)
    requires
        c != '%' && c != '+',
    ensures
        forall|j: int|
            0 <= j < encode_scalar(c as u32).len() ==> is_plain_byte(
                #[trigger] encode_scalar(c as u32)[j],
            ),
{
    let v = c as u32;
    vstd::utf8::char_is_scalar(c);
    if has_width_1_encoding(v) {
        assert((v & 0x7f) as u8 == v as u8 && (v as u8) as u32 == v) by (bit_vector)
            requires
                v <= 0x7f,
        ;
        assert(v != 0x25 && v != 0x2b) by {
            if v == 0x25 {
                vstd::utf8::char_u32_cast(c, v);
                assert(c == '%');
            }
            if v == 0x2b {
                vstd::utf8::char_u32_cast(c, v);
                assert(c == '+');
            }
        }
    } else {
        assert(0x80 <= (0xC0 | ((v >> 6) & 0x1F) as u8)) by (bit_vector);
        assert(0x80 <= (0xE0 | ((v >> 12) & 0x0F) as u8)) by (bit_vector);
        assert(0x80 <= (0xF0 | ((v >> 18) & 0x7) as u8)) by (bit_vector);
        assert(0x80 <= (0x80 | (v & 0x3F) as u8)) by (bit_vector);
        assert(0x80 <= (0x80 | ((v >> 6) & 0x3F) as u8)) by (bit_vector);
        assert(0x80 <= (0x80 | ((v >> 12) & 0x3F) as u8)) by (bit_vector);
    }
}

proof fn lemma_encode_plain(s: Seq<char>)
    requires
        forall|i: int| 0 <= i < s.len() ==> #[trigger] s[i] != '%' && s[i] != '+',
    ensures
        forall|j: int| 0 <= j < encode_utf8(s).len() ==> is_plain_byte(#[trigger] encode_utf8(s)[j]),
    decreases s.len(),
{
    if s.len() > 0 {
        assert(s[0] != '%' && s[0] != '+');
        lemma_scalar_plain(s[0]);
        assert forall|i: int| 0 <= i < s.drop_first().len() implies #[trigger] s.drop_first()[i]
            != '%' && s.drop_first()[i] != '+' by {
            assert(s.drop_first()[i] == s[i + 1]);
        }
        lemma_encode_plain(s.drop_first());
        let a = encode_scalar(s[0] as u32);
        let b = encode_utf8(s.drop_first());
        assert(encode_utf8(s) == a + b);
        assert forall|j: int| 0 <= j < (a + b).len() implies is_plain_byte(#[trigger] (a + b)[j]) by {
            if j < a.len() {
                assert((a + b)[j] == a[j]);
            } else {
                assert((a + b)[j] == b[j - a.len()]);
            }
        }
    }
}

/// Text without `%` or `+` decodes to itself.
pub proof fn lemma_url_decode_plain(s: Seq<char>)
    requires
        forall|i: int| 0 <= i < s.len() ==> #[trigger] s[i] != '%' && s[i] != '+',
    ensures
        url_decoded(s) == s,
{
    lemma_encode_plain(s);
    lemma_percent_decode_plain(encode_utf8(s));
    vstd::utf8::encode_utf8_valid_utf8(s);
    vstd::utf8::encode_utf8_decode_utf8(s);
}

/// `e[at..at + 3]` is `%` followed by the two hex digits (either case) of `byte`.
pub open spec fn encodes_byte_at(e: Seq<u8>, at: int, byte: u8) -> bool {
    &&& e[at] == '%' as u8
    &&& hex_digit_value(e[at + 1]) == Some((byte / 16) as u8)
    &&& hex_digit_value(e[at + 2]) == Some((byte % 16) as u8)
}

/// `e` is the full percent-encoding of `b`: each byte written as `%`
/// followed by its two hex digits (either case).
pub open spec fn is_percent_encoding(e: Seq<u8>, b: Seq<u8>) -> bool {
    &&& e.len() == 3 * b.len()
    &&& forall|i: int| 0 <= i < b.len() ==> encodes_byte_at(e, 3 * i, #[trigger] b[i])
}

proof fn lemma_percent_decode_encoding(e: Seq<u8>, b: Seq<u8>)
    requires
        is_percent_encoding(e, b),
    ensures
        percent_decode(e) == b,
    decreases b.len(),
{
    if b.len() == 0 {
        assert(e =~= Seq::<u8>::empty());
    } else {
        let b0 = b[0];
        assert(encodes_byte_at(e, 0, b0));
        assert((b0 / 16) * 16 + b0 % 16 == b0);
        let e2 = e.skip(3);
        let b2 = b.drop_first();
        assert forall|i: int| 0 <= i < b2.len() implies encodes_byte_at(e2, 3 * i, #[trigger] b2[i]) by {
            assert(b2[i] == b[i + 1]);
            assert(encodes_byte_at(e, 3 * (i + 1), b[i + 1]));
            assert(e2[3 * i] == e[3 * i + 3]);
            assert(e2[3 * i + 1] == e[3 * i + 4]);
            assert(e2[3 * i + 2] == e[3 * i + 5]);
        }
        assert(is_percent_encoding(e2, b2));
        lemma_percent_decode_encoding(e2, b2);
        assert(seq![b0] + b2 =~= b);
    }
}

/// Decoding a full percent-encoding gives the text back: when the UTF-8
/// bytes of `s` percent-encode, byte by byte, the UTF-8 bytes of `t`,
/// `s` decodes to `t`.
pub proof fn lemma_url_decode_percent_encoded(s: Seq<char>, t: Seq<char>)
    requires
        is_percent_encoding(encode_utf8(s), encode_utf8(t)),
    ensures
        url_decoded(s) == t,
{
    lemma_percent_decode_encoding(encode_utf8(s), encode_utf8(t));
    vstd::utf8::encode_utf8_valid_utf8(t);
    vstd::utf8::encode_utf8_decode_utf8(t);
}

/// Every pair of a decoded form has a non-empty key.
pub proof fn lemma_form_keys_nonempty(parts: Seq<Seq<char>>)
    ensures
        forall|i: int| 0 <= i < form_fields(parts).len() ==> (#[trigger] form_fields(parts)[i]).0.len() > 0,
    decreases parts.len(),
{
    if parts.len() > 0 {
        lemma_form_keys_nonempty(parts.drop_last());
        let earlier = form_fields(parts.drop_last());
        match form_field(parts.last()) {
            Some(pair) => {
                assert(pair.0.len() > 0);
                assert forall|i: int| 0 <= i < earlier.push(pair).len() implies (
                #[trigger] earlier.push(pair)[i]).0.len() > 0 by {
                    if i < earlier.len() {
                        assert(earlier.push(pair)[i] == earlier[i]);
                    }
                }
            },
            None => {},
        }
    }
}

/// A form body without `&` is a single part.
pub proof fn lemma_form_single_part(s: Seq<char>)
    requires
        forall|i: int| 0 <= i < s.len() ==> #[trigger] s[i] != '&',
    ensures
        split_on(s, '&') == seq![s],
    decreases s.len(),
{
    if s.len() > 0 {
        assert forall|i: int| 0 <= i < s.drop_last().len() implies #[trigger] s.drop_last()[i] != '&' by {
            assert(s.drop_last()[i] == s[i]);
        }
        lemma_form_single_part(s.drop_last());
        assert(s.drop_last().push(s.last()) =~= s);
        assert(seq![s.drop_last()].update(0, s.drop_last().push(s.last())) =~= seq![s]);
    } else {
        assert(s =~= Seq::<char>::empty());
    }
}

proof fn lemma_split_key_value_at_eq(k: Seq<char>, v: Seq<char>)
    requires
        forall|i: int| 0 <= i < k.len() ==> #[trigger] k[i] != '=',
    ensures
        split_key_value(k + seq!['='] + v) == (k, v),
    decreases k.len(),
{
    let part = k + seq!['='] + v;
    if k.len() == 0 {
        assert(part[0] == '=');
        assert(part.drop_first() =~= v);
    } else {
        let k2 = k.drop_first();
        assert forall|i: int| 0 <= i < k2.len() implies #[trigger] k2[i] != '=' by {
            assert(k2[i] == k[i + 1]);
        }
        lemma_split_key_value_at_eq(k2, v);
        assert(part[0] == k[0]);
        assert(part.drop_first() =~= k2 + seq!['='] + v);
        assert(seq![k[0]] + k2 =~= k);
    }
}

/// A body holding a single `key=value` part, whose key needs no decoding,
/// gives one pair: the key, and the value decoded once.
pub proof fn lemma_form_single_field(k: Seq<char>, v: Seq<char>)
    requires
        k.len() > 0,
        forall|i: int|
            0 <= i < k.len() ==> #[trigger] k[i] != '&' && k[i] != '=' && k[i] != '%' && k[i] != '+',
        forall|i: int| 0 <= i < v.len() ==> #[trigger] v[i] != '&',
    ensures
        form_pairs(encode_utf8(k + seq!['='] + v)) == seq![(k, url_decoded(v))],
{
    let part = k + seq!['='] + v;
    vstd::utf8::encode_utf8_valid_utf8(part);
    vstd::utf8::encode_utf8_decode_utf8(part);
    assert(lossy_text(encode_utf8(part)) == part);
    assert forall|i: int| 0 <= i < part.len() implies #[trigger] part[i] != '&' by {
        if i < k.len() {
            assert(part[i] == k[i]);
        } else if i > k.len() {
            assert(part[i] == v[i - k.len() - 1]);
        }
    }
    lemma_form_single_part(part);
    assert forall|i: int| 0 <= i < k.len() implies #[trigger] k[i] != '=' by {}
    lemma_split_key_value_at_eq(k, v);
    lemma_url_decode_plain(k);
    let parts = seq![part];
    assert(parts.drop_last() =~= Seq::<Seq<char>>::empty());
    assert(form_fields(parts.drop_last()) == Seq::<(Seq<char>, Seq<char>)>::empty());
    assert(form_field(part) == Some((k, url_decoded(v))));
    assert(Seq::<(Seq<char>, Seq<char>)>::empty().push((k, url_decoded(v))) =~= seq![(k, url_decoded(v))]);
}

proof fn lemma_split_on_amp(a: Seq<char>, b: Seq<char>)
    ensures
        split_on(a + seq!['&'] + b, '&') == split_on(a, '&') + split_on(b, '&'),
    decreases b.len(),
{
    let s = a + seq!['&'] + b;
    lemma_split_on_nonempty(a, '&');
    if b.len() == 0 {
        assert(s =~= a.push('&'));
        assert(s.drop_last() =~= a);
        assert(split_on(b, '&') == seq![Seq::<char>::empty()]);
        assert(split_on(a, '&').push(seq![]) =~= split_on(a, '&') + seq![Seq::<char>::empty()]);
    } else {
        let b2 = b.drop_last();
        let c = b.last();
        lemma_split_on_amp(a, b2);
        lemma_split_on_nonempty(b2, '&');
        assert(s.drop_last() =~= a + seq!['&'] + b2);
        assert(s.last() == c);
        let x = split_on(a, '&');
        let y = split_on(b2, '&');
        if c == '&' {
            assert((x + y).push(seq![]) =~= x + y.push(seq![]));
        } else {
            assert((x + y).last() == y.last());
            assert((x + y).update((x + y).len() - 1, y.last().push(c)) =~= x + y.update(
                y.len() - 1,
                y.last().push(c),
            ));
        }
    }
}

proof fn lemma_form_fields_concat(x: Seq<Seq<char>>, y: Seq<Seq<char>>)
    ensures
        form_fields(x + y) == form_fields(x) + form_fields(y),
    decreases y.len(),
{
    if y.len() == 0 {
        assert(x + y =~= x);
        assert(form_fields(x) + Seq::<(Seq<char>, Seq<char>)>::empty() =~= form_fields(x));
    } else {
        lemma_form_fields_concat(x, y.drop_last());
        assert((x + y).drop_last() =~= x + y.drop_last());
        assert((x + y).last() == y.last());
        let fx = form_fields(x);
        let fy = form_fields(y.drop_last());
        match form_field(y.last()) {
            Some(pair) => {
                assert((fx + fy).push(pair) =~= fx + fy.push(pair));
            },
            None => {},
        }
    }
}

/// Parts of a form are read independently: the pairs of two bodies joined
/// with `&` are the pairs of the first followed by those of the second.
pub proof fn lemma_form_pairs_join(a: Seq<char>, b: Seq<char>)
    ensures
        form_pairs(encode_utf8(a + seq!['&'] + b)) == form_pairs(encode_utf8(a)) + form_pairs(encode_utf8(b)),
{
    let s = a + seq!['&'] + b;
    vstd::utf8::encode_utf8_valid_utf8(s);
    vstd::utf8::encode_utf8_decode_utf8(s);
    vstd::utf8::encode_utf8_valid_utf8(a);
    vstd::utf8::encode_utf8_decode_utf8(a);
    vstd::utf8::encode_utf8_valid_utf8(b);
    vstd::utf8::encode_utf8_decode_utf8(b);
    lemma_split_on_amp(a, b);
    lemma_form_fields_concat(split_on(a, '&'), split_on(b, '&'));
}

proof fn lemma_scalar_first_byte(c: char)
    ensures
        encode_scalar(c as u32).len() >= 1,
        encode_scalar(c as u32)[0] < 0x80 ==> encode_scalar(c as u32)[0] as u32 == c as u32,
{
    let v = c as u32;
    vstd::utf8::char_is_scalar(c);
    if has_width_1_encoding(v) {
        assert((v & 0x7f) as u8 == v as u8 && (v as u8) as u32 == v) by (bit_vector)
            requires
                v <= 0x7f,
        ;
    } else {
        assert(0x80 <= (0xC0 | ((v >> 6) & 0x1F) as u8)) by (bit_vector);
        assert(0x80 <= (0xE0 | ((v >> 12) & 0x0F) as u8)) by (bit_vector);
        assert(0x80 <= (0xF0 | ((v >> 18) & 0x7) as u8)) by (bit_vector);
    }
}

/// Where every byte of the encoding is an ASCII byte other than `&`, the
/// text holds no `&`.
proof fn lemma_no_amp_in_text(t: Seq<char>)
    requires
        forall|j: int|
            0 <= j < encode_utf8(t).len() ==> #[trigger] encode_utf8(t)[j] < 0x80 && encode_utf8(t)[j]
                != 0x26,
    ensures
        forall|i: int| 0 <= i < t.len() ==> #[trigger] t[i] != '&',
    decreases t.len(),
{
    if t.len() > 0 {
        let a = encode_scalar(t[0] as u32);
        let rest = encode_utf8(t.drop_first());
        assert(encode_utf8(t) == a + rest);
        lemma_scalar_first_byte(t[0]);
        assert((a + rest)[0] == a[0]);
        assert(t[0] != '&');
        assert forall|j: int| 0 <= j < rest.len() implies #[trigger] rest[j] < 0x80 && rest[j] != 0x26 by {
            assert((a + rest)[a.len() + j] == rest[j]);
        }
        lemma_no_amp_in_text(t.drop_first());
        assert forall|i: int| 0 <= i < t.len() implies #[trigger] t[i] != '&' by {
            if i > 0 {
                assert(t[i] == t.drop_first()[i - 1]);
            }
        }
    }
}

/// A form value sent as the full percent-encoding of a text `t` comes out
/// as `t` itself: values are decoded exactly once, so an encoded `+` or `%`
/// stays what it is.
pub proof fn lemma_form_value_percent_encoded(k: Seq<char>, v: Seq<char>, t: Seq<char>)
    requires
        k.len() > 0,
        forall|i: int|
            0 <= i < k.len() ==> #[trigger] k[i] != '&' && k[i] != '=' && k[i] != '%' && k[i] != '+',
        is_percent_encoding(encode_utf8(v), encode_utf8(t)),
    ensures
        form_pairs(encode_utf8(k + seq!['='] + v)) == seq![(k, t)],
{
    let e = encode_utf8(v);
    let b = encode_utf8(t);
    assert forall|j: int| 0 <= j < e.len() implies #[trigger] e[j] < 0x80 && e[j] != 0x26 by {
        let i = j / 3;
        assert(j == 3 * i + j % 3);
        assert(0 <= i < b.len());
        assert(encodes_byte_at(e, 3 * i, b[i]));
    }
    lemma_no_amp_in_text(v);
    lemma_form_single_field(k, v);
    lemma_url_decode_percent_encoded(v, t);
}

/// The character a JSON escape `\x` stands for (the `\u` form left out).
pub open spec fn json_escape_meaning(x: char) -> Option<char> {
    if x == '"' {
        Some('"')
    } else if x == '\\' {
        Some('\\')
    } else if x == '/' {
        Some('/')
    } else if x == 'b' {
        Some('\x08')
    } else if x == 'f' {
        Some('\x0c')
    } else if x == 'n' {
        Some('\n')
    } else if x == 'r' {
        Some('\r')
    } else if x == 't' {
        Some('\t')
    } else {
        None
    }
}

/// The text a JSON reader takes from the body of a string literal, or
/// `None` where the body is not valid JSON: a bare `"` would end the
/// literal early, raw control characters are not allowed, and a backslash
/// must start a known escape.
pub open spec fn json_string_value(e: Seq<char>) -> Option<Seq<char>>
    decreases e.len(),
{
    if e.len() == 0 {
        Some(seq![])
    } else if e[0] == '\\' {
        if e.len() < 2 {
            None
        } else {
            match (json_escape_meaning(e[1]), json_string_value(e.skip(2))) {
                (Some(c), Some(rest)) => Some(seq![c] + rest),
                _ => None,
            }
        }
    } else if e[0] == '"' || (e[0] as u32) < 0x20 {
        None
    } else {
        match json_string_value(e.drop_first()) {
            Some(rest) => Some(seq![e[0]] + rest),
            None => None,
        }
    }
}

proof fn lemma_json_escaped_front(s: Seq<char>)
    requires
        s.len() > 0,
    ensures
        json_escaped(s) == escape_char(s[0]) + json_escaped(s.drop_first()),
    decreases s.len(),
{
    if s.len() == 1 {
        assert(s.drop_last() =~= Seq::<char>::empty());
        assert(s.drop_first() =~= Seq::<char>::empty());
        assert(escape_char(s[0]) + Seq::<char>::empty() =~= escape_char(s[0]));
    } else {
        lemma_json_escaped_front(s.drop_last());
        assert(s.drop_last().drop_first() =~= s.drop_first().drop_last());
        assert(s.drop_first().last() == s.last());
        assert(s.drop_last()[0] == s[0]);
        assert(escape_char(s[0]) + json_escaped(s.drop_first().drop_last()) + escape_char(s.last())
            =~= escape_char(s[0]) + (json_escaped(s.drop_first().drop_last()) + escape_char(
            s.last(),
        )));
    }
}

/// Escaping is faithful: from the escaped form of a text, a JSON reader takes
/// back exactly that text, provided it holds no control characters other
/// than newline, carriage return and tab (which are escaped).
pub proof fn lemma_json_escape_roundtrip(s: Seq<char>)
    requires
        forall|i: int|
            0 <= i < s.len() ==> (#[trigger] s[i] as u32) >= 0x20 || s[i] == '\n' || s[i] == '\r'
                || s[i] == '\t',
    ensures
        json_string_value(json_escaped(s)) == Some(s),
    decreases s.len(),
{
    if s.len() == 0 {
        assert(json_escaped(s) =~= Seq::<char>::empty());
    } else {
        let c = s[0];
        let rest = s.drop_first();
        assert forall|i: int| 0 <= i < rest.len() implies (#[trigger] rest[i] as u32) >= 0x20
            || rest[i] == '\n' || rest[i] == '\r' || rest[i] == '\t' by {
            assert(rest[i] == s[i + 1]);
        }
        lemma_json_escape_roundtrip(rest);
        lemma_json_escaped_front(s);
        let e = escape_char(c) + json_escaped(rest);
        assert((c as u32) >= 0x20 || c == '\n' || c == '\r' || c == '\t');
        if escape_char(c).len() == 2 {
            assert(e[0] == '\\');
            assert(e.skip(2) =~= json_escaped(rest));
        } else {
            assert(e[0] == c);
            assert(e.drop_first() =~= json_escaped(rest));
        }
        assert(seq![c] + rest =~= s);
    }
}

/// Text without `"`, `\`, newline, carriage return or tab is its own
/// JSON escape.
pub proof fn lemma_json_escape_plain(s: Seq<char>)
    requires
        forall|i: int|
            0 <= i < s.len() ==> #[trigger] s[i] != '"' && s[i] != '\\' && s[i] != '\n' && s[i]
                != '\r' && s[i] != '\t',
    ensures
        json_escaped(s) == s,
    decreases s.len(),
{
    if s.len() > 0 {
        assert forall|i: int| 0 <= i < s.drop_last().len() implies #[trigger] s.drop_last()[i]
            != '"' && s.drop_last()[i] != '\\' && s.drop_last()[i] != '\n' && s.drop_last()[i]
            != '\r' && s.drop_last()[i] != '\t' by {
            assert(s.drop_last()[i] == s[i]);
        }
        lemma_json_escape_plain(s.drop_last());
        assert(s.last() == s[s.len() - 1]);
        assert(s.drop_last() + seq![s.last()] =~= s);
    }
}

} // verus!
