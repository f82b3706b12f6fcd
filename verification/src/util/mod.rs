//! Utility functions shared across the application.

pub mod net;
pub mod permission;
pub mod text;

use vstd::prelude::*;

use crate::util::text::{
    ascii_lower,
    chars_of,
    is_ascii_hexdigit,
    is_hex_digit,
    push_char,
    push_decimal,
    push_str,
    spec_decimal,
    spec_signed_decimal,
    string_from_chars,
    string_of,
    to_ascii_lower,
};

verus! {

/// The ASCII hexadecimal digits of `s`, in order.
pub open spec fn hex_digits(s: Seq<char>) -> Seq<char> {
    s.filter(|c: char| is_hex_digit(c))
}

/// Twelve hexadecimal digits written as six lowercase pairs joined by ':'.
pub open spec fn colon_pairs(h: Seq<char>) -> Seq<char> {
    Seq::new(17, |k: int| if k % 3 == 2 { ':' } else { ascii_lower(h[(k / 3) * 2 + k % 3]) })
}

/// A MAC address in IEEE form: when the input holds exactly twelve
/// hexadecimal digits (whatever separators surround them), the digits as six
/// lowercase pairs joined by ':'; otherwise the input unchanged.
pub open spec fn spec_format_mac_ieee(mac: Seq<char>) -> Seq<char> {
    if hex_digits(mac).len() == 12 {
        colon_pairs(hex_digits(mac))
    } else {
        mac
    }
}

/// Format a MAC address into standard IEEE format (00:11:22:33:44:55).
pub fn format_mac_ieee(mac: &str) -> (r: String)
    ensures
        r@ == spec_format_mac_ieee(mac@),
{
    let chars = chars_of(mac);
    let mut clean: Vec<char> = Vec::new();
    let mut i: usize = 0;
    while i < chars.len()
        invariant
            chars@ == mac@,
            i <= chars@.len(),
            clean@ == hex_digits(chars@.subrange(0, i as int)),
        decreases chars.len() - i,
    {
        let c = chars[i];
        proof {
            reveal(Seq::filter);
            assert(chars@.subrange(0, i + 1).drop_last() =~= chars@.subrange(0, i as int));
            assert(chars@.subrange(0, i + 1).last() == c);
        }
        if is_ascii_hexdigit(c) {
            clean.push(c);
        }
        i += 1;
    }
    proof {
        assert(chars@.subrange(0, chars@.len() as int) =~= mac@);
    }
    if clean.len() != 12 {
        return string_of(mac);
    }
    let mut out: Vec<char> = Vec::new();
    let mut k: usize = 0;
    while k < 17
        invariant
            clean@.len() == 12,
            k <= 17,
            out@ == colon_pairs(clean@).subrange(0, k as int),
        decreases 17 - k,
    {
        if k % 3 == 2 {
            out.push(':');
        } else {
            out.push(to_ascii_lower(clean[(k / 3) * 2 + k % 3]));
        }
        k += 1;
        proof {
            assert(out@ =~= colon_pairs(clean@).subrange(0, k as int));
        }
    }
    proof {
        assert(out@ =~= colon_pairs(clean@));
    }
    string_from_chars(out.as_slice())
}

/// Division rounding toward zero, as Rust's integer `/` does (`b > 0`).
pub open spec fn tdiv(a: int, b: int) -> int {
    if a >= 0 {
        a / b
    } else {
        -((-a) / b)
    }
}

/// The remainder of `tdiv`, as Rust's integer `%` does.
pub open spec fn trem(a: int, b: int) -> int {
    a - b * tdiv(a, b)
}

/// A number written with `{:02}`: at least two characters, zero-padded after
/// the sign (a negative number already has two).
pub open spec fn spec_pad2(n: int) -> Seq<char> {
    if n < 0 {
        spec_signed_decimal(n)
    } else if n < 10 {
        seq!['0'] + spec_decimal(n as nat)
    } else {
        spec_decimal(n as nat)
    }
}

/// The plural suffix: "s" unless the count is one.
pub open spec fn plural(n: int) -> Seq<char> {
    if n != 1 {
        seq!['s']
    } else {
        Seq::empty()
    }
}

/// `HH:MM:SS` with each field written by `spec_pad2`.
pub open spec fn spec_clock(h: int, m: int, s: int) -> Seq<char> {
    spec_pad2(h) + seq![':'] + spec_pad2(m) + seq![':'] + spec_pad2(s)
}

/// Uptime in hundredths of a second, as text: seconds are split into days,
/// hours, minutes and seconds (Rust integer division); more than 365 days are
/// written as years and days, any positive number of days as days, and the
/// clock `HH:MM:SS` always ends the text.
pub open spec fn spec_format_uptime(ticks: int) -> Seq<char> {
    let seconds = tdiv(ticks, 100);
    let days = tdiv(seconds, 86400);
    let hours = tdiv(trem(seconds, 86400), 3600);
    let minutes = tdiv(trem(seconds, 3600), 60);
    let secs = trem(seconds, 60);
    let clock = spec_clock(hours, minutes, secs);
    if days > 365 {
        let years = days / 365;
        let remaining = days % 365;
        spec_decimal(years as nat) + " year"@ + plural(years) + seq![' '] + spec_decimal(
            remaining as nat,
        ) + " day"@ + plural(remaining) + seq![' '] + clock
    } else if days > 0 {
        spec_decimal(days as nat) + " day"@ + plural(days) + seq![' '] + clock
    } else {
        clock
    }
}

/// Append a clock field whose value is `v`, or `-v` when `neg` holds.
fn push_pad2(out: &mut String, neg: bool, v: u64)
    requires
        v < 100,
    ensures
        final(out)@ == old(out)@ + spec_pad2(if neg { -(v as int) } else { v as int }),
{
    if neg && v > 0 {
        push_char(out, '-');
        push_decimal(out, v);
        proof {
            assert(final(out)@ =~= old(out)@ + spec_pad2(-(v as int)));
        }
    } else {
        if v < 10 {
            push_char(out, '0');
        }
        push_decimal(out, v);
        proof {
            assert(final(out)@ =~= old(out)@ + spec_pad2(if neg { -(v as int) } else { v as int }));
        }
    }
}

/// Append "s" unless `n` is one.
fn push_plural(out: &mut String, n: u64)
    ensures
        final(out)@ == old(out)@ + plural(n as int),
{
    if n != 1 {
        push_char(out, 's');
    }
    proof {
        assert(final(out)@ =~= old(out)@ + plural(n as int));
    }
}

/// Format uptime ticks (hundredths of a second) into human-readable string.
pub fn format_uptime(ticks: i64) -> (r: String)
    ensures
        r@ == spec_format_uptime(ticks as int),
{
    let neg = ticks < 0;
    let mag: u64 = if ticks == i64::MIN {
        0x8000_0000_0000_0000
    } else if neg {
        (-ticks) as u64
    } else {
        ticks as u64
    };
    let s_mag = mag / 100;
    let d_mag = s_mag / 86400;
    let h_mag = (s_mag % 86400) / 3600;
    let m_mag = (s_mag % 3600) / 60;
    let sec_mag = s_mag % 60;
    let ghost t = ticks as int;
    let ghost seconds = tdiv(t, 100);
    proof {
        assert(mag as int == if t < 0 { -t } else { t });
        assert(seconds == if neg { -(s_mag as int) } else { s_mag as int });
        assert(tdiv(seconds, 86400) == if neg { -(d_mag as int) } else { d_mag as int });
        assert(trem(seconds, 86400) == if neg { -((s_mag % 86400) as int) } else { (s_mag % 86400) as int });
        assert(trem(seconds, 3600) == if neg { -((s_mag % 3600) as int) } else { (s_mag % 3600) as int });
        assert(tdiv(trem(seconds, 86400), 3600) == if neg { -(h_mag as int) } else { h_mag as int });
        assert(tdiv(trem(seconds, 3600), 60) == if neg { -(m_mag as int) } else { m_mag as int });
        assert(trem(seconds, 60) == if neg { -(sec_mag as int) } else { sec_mag as int });
    }
    let mut out = String::new();
    if !neg && d_mag > 365 {
        let years = d_mag / 365;
        let remaining = d_mag % 365;
        push_decimal(&mut out, years);
        push_str(&mut out, " year");
        push_plural(&mut out, years);
        push_char(&mut out, ' ');
        push_decimal(&mut out, remaining);
        push_str(&mut out, " day");
        push_plural(&mut out, remaining);
        push_char(&mut out, ' ');
    } else if !neg && d_mag > 0 {
        push_decimal(&mut out, d_mag);
        push_str(&mut out, " day");
        push_plural(&mut out, d_mag);
        push_char(&mut out, ' ');
    }
    let ghost prefix = out@;
    push_pad2(&mut out, neg, h_mag);
    push_char(&mut out, ':');
    push_pad2(&mut out, neg, m_mag);
    push_char(&mut out, ':');
    push_pad2(&mut out, neg, sec_mag);
    proof {
        let hours = tdiv(trem(seconds, 86400), 3600);
        let minutes = tdiv(trem(seconds, 3600), 60);
        let secs = trem(seconds, 60);
        assert(out@ =~= prefix + spec_clock(hours, minutes, secs));
    }
    out
}

/// The hexadecimal digits among the first `k` characters of the formatted
/// pairs are the first `k - k / 3` lowered digits.
pub(crate) proof fn lemma_hex_digits_of_pairs_prefix(h: Seq<char>, k: int)
    requires
        h.len() == 12,
        forall|i: int| 0 <= i < 12 ==> is_hex_digit(#[trigger] h[i]),
        0 <= k <= 17,
    ensures
        hex_digits(colon_pairs(h).subrange(0, k)) == Seq::new(12, |j: int| ascii_lower(h[j])).subrange(
            0,
            k - k / 3,
        ),
    decreases k,
{
    reveal(Seq::filter);
    let lowered = Seq::new(12, |j: int| ascii_lower(h[j]));
    let r = colon_pairs(h);
    if k == 0 {
        assert(r.subrange(0, 0) =~= Seq::<char>::empty());
        assert(lowered.subrange(0, 0) =~= Seq::<char>::empty());
    } else {
        lemma_hex_digits_of_pairs_prefix(h, k - 1);
        let p = r.subrange(0, k);
        assert(p.drop_last() =~= r.subrange(0, k - 1));
        assert(p.last() == r[k - 1]);
        let j = k - 1;
        if j % 3 == 2 {
            assert(!is_hex_digit(':'));
            assert(k - k / 3 == j - j / 3);
        } else {
            let idx = (j / 3) * 2 + j % 3;
            assert(idx == j - j / 3);
            assert(is_hex_digit(h[idx]));
            assert(is_hex_digit(ascii_lower(h[idx])));
            assert(k - k / 3 == j - j / 3 + 1);
            assert(lowered.subrange(0, k - k / 3) =~= lowered.subrange(0, j - j / 3).push(
                ascii_lower(h[idx]),
            ));
        }
    }
}

/// Formatting a MAC address twice gives the same text as formatting it once.
pub proof fn lemma_format_mac_ieee_idempotent(mac: Seq<char>)
    ensures
        spec_format_mac_ieee(spec_format_mac_ieee(mac)) == spec_format_mac_ieee(mac),
{
    let h = hex_digits(mac);
    if h.len() == 12 {
        assert forall|i: int| 0 <= i < 12 implies is_hex_digit(#[trigger] h[i]) by {
            mac.lemma_filter_pred(|c: char| is_hex_digit(c), i);
        }
        lemma_hex_digits_of_pairs_prefix(h, 17);
        let lowered = Seq::new(12, |j: int| ascii_lower(h[j]));
        assert(colon_pairs(h).subrange(0, 17) =~= colon_pairs(h));
        assert(lowered.subrange(0, 12) =~= lowered);
        assert(colon_pairs(lowered) =~= colon_pairs(h));
    }
}

/// In text made of hexadecimal digits and colons, removing the colons
/// keeps exactly the hexadecimal digits.
proof fn lemma_strip_colons_is_hex_digits(s: Seq<char>)
    requires
        forall|i: int| 0 <= i < s.len() ==> is_hex_digit(#[trigger] s[i]) || s[i] == ':',
    ensures
        s.filter(|c: char| c != ':') == hex_digits(s),
    decreases s.len(),
{
    reveal(Seq::filter);
    if s.len() > 0 {
        lemma_strip_colons_is_hex_digits(s.drop_last());
        assert(is_hex_digit(s[s.len() - 1]) || s[s.len() - 1] == ':');
    }
}

/// A MAC address with exactly twelve hexadecimal digits is written in IEEE
/// form: seventeen characters, ':' at positions 2, 5, 8, 11 and 14, and
/// without the colons its digits lowercased; formatting that form again
/// leaves it unchanged.
pub proof fn lemma_format_mac_ieee_shape(mac: Seq<char>)
    requires
        hex_digits(mac).len() == 12,
    ensures
        spec_format_mac_ieee(mac).len() == 17,
        forall|k: int|
            0 <= k < 17 && k % 3 == 2 ==> #[trigger] spec_format_mac_ieee(mac)[k] == ':',
        spec_format_mac_ieee(mac).filter(|c: char| c != ':') == hex_digits(mac).map_values(
            |c: char| ascii_lower(c),
        ),
        spec_format_mac_ieee(spec_format_mac_ieee(mac)) == spec_format_mac_ieee(mac),
{
    let h = hex_digits(mac);
    assert forall|i: int| 0 <= i < 12 implies is_hex_digit(#[trigger] h[i]) by {
        mac.lemma_filter_pred(|c: char| is_hex_digit(c), i);
    }
    let cp = colon_pairs(h);
    assert forall|k: int| 0 <= k < cp.len() implies is_hex_digit(#[trigger] cp[k]) || cp[k] == ':' by {
        if k % 3 != 2 {
            assert(is_hex_digit(h[(k / 3) * 2 + k % 3]));
        }
    }
    lemma_strip_colons_is_hex_digits(cp);
    lemma_hex_digits_of_pairs_prefix(h, 17);
    assert(cp.subrange(0, 17) =~= cp);
    let lowered = Seq::new(12, |j: int| ascii_lower(h[j]));
    assert(lowered.subrange(0, 12) =~= lowered);
    assert(lowered =~= h.map_values(|c: char| ascii_lower(c)));
    lemma_format_mac_ieee_idempotent(mac);
}

/// The character of the decimal digit `d`.
pub open spec fn digit_at(d: int) -> char {
    (48 + d) as char
}

/// A clock field from 0 to 99 is written as exactly two decimal digits:
/// tens then units (so a leading '0' only below 10).
pub proof fn lemma_clock_field_two_digits(n: int)
    requires
        0 <= n < 100,
    ensures
        spec_pad2(n) == seq![digit_at(n / 10), digit_at(n % 10)],
        spec_pad2(n).len() == 2,
{
    reveal_with_fuel(spec_decimal, 2);
    if n < 10 {
        assert(spec_pad2(n) =~= seq![digit_at(n / 10), digit_at(n % 10)]);
    } else {
        assert(spec_decimal((n / 10) as nat) =~= seq![digit_at(n / 10)]);
        assert(spec_pad2(n) =~= seq![digit_at(n / 10), digit_at(n % 10)]);
    }
}

/// The uptime text of a non-negative tick count ends with the time of day as
/// `HH:MM:SS`: eight characters, two digits each for the hours, minutes and
/// seconds within the day, separated by ':'; below one day that is the
/// whole text.
pub proof fn lemma_format_uptime_clock(ticks: int)
    requires
        0 <= ticks,
    ensures
        ({
            let total = ticks / 100;
            let h = (total % 86400) / 3600;
            let m = (total % 3600) / 60;
            let sec = total % 60;
            let clock = seq![
                digit_at(h / 10),
                digit_at(h % 10),
                ':',
                digit_at(m / 10),
                digit_at(m % 10),
                ':',
                digit_at(sec / 10),
                digit_at(sec % 10),
            ];
            let r = spec_format_uptime(ticks);
            &&& r.len() >= 8
            &&& r.subrange(r.len() - 8, r.len() as int) == clock
            &&& (ticks < 8_640_000 ==> r == clock)
        }),
{
    let total = ticks / 100;
    let h = (total % 86400) / 3600;
    let m = (total % 3600) / 60;
    let sec = total % 60;
    assert(tdiv(ticks, 100) == total);
    assert(tdiv(total, 86400) == total / 86400);
    assert(trem(total, 86400) == total % 86400);
    assert(tdiv(total % 86400, 3600) == h);
    assert(trem(total, 3600) == total % 3600);
    assert(tdiv(total % 3600, 60) == m);
    assert(trem(total, 60) == sec);
    lemma_clock_field_two_digits(h);
    lemma_clock_field_two_digits(m);
    lemma_clock_field_two_digits(sec);
    let clock = spec_clock(h, m, sec);
    assert(clock =~= seq![
        digit_at(h / 10),
        digit_at(h % 10),
        ':',
        digit_at(m / 10),
        digit_at(m % 10),
        ':',
        digit_at(sec / 10),
        digit_at(sec % 10),
    ]);
    let r = spec_format_uptime(ticks);
    assert(r.subrange(r.len() - 8, r.len() as int) =~= clock);
}

} // verus!
