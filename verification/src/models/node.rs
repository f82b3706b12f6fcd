//! Node model - MAC addresses seen on switch ports.

use chrono::NaiveDateTime;
use vstd::prelude::*;

use crate::util::net::IpNet;
use crate::util::text::{
    all_ascii,
    ascii_lower,
    ascii_upper,
    chars_of,
    is_hex_digit,
    string_from_chars,
    to_uppercase,
    unicode_uppercase,
};
use crate::util::{colon_pairs, hex_digits, lemma_hex_digits_of_pairs_prefix, spec_format_mac_ieee};

verus! {

/// A network node (host) identified by MAC address on a switch port.
#[derive(Debug)]
pub struct Node {
    /// MAC address of the node
    pub mac: String,
    /// Switch IP where this MAC was seen
    pub switch: IpNet,
    /// Port where this MAC was seen
    pub port: String,
    /// VLAN where this MAC was seen
    pub vlan: Option<String>,
    /// Whether this is the current/active entry
    pub active: Option<bool>,
    /// OUI prefix (first 3 bytes of MAC)
    pub oui: Option<String>,
    /// First time this MAC was seen on this port
    pub time_first: Option<NaiveDateTime>,
    /// Most recent time this MAC was seen
    pub time_recent: Option<NaiveDateTime>,
    /// Last time this entry was active
    pub time_last: Option<NaiveDateTime>,
}

/// The separators a MAC address may be written with.
pub open spec fn is_mac_separator(c: char) -> bool {
    c == ':' || c == '-' || c == '.'
}

/// The first six characters of a MAC address once its separators are
/// removed (all of them when fewer remain).
pub open spec fn spec_oui_prefix(mac: Seq<char>) -> Seq<char> {
    let stripped = mac.filter(|c: char| !is_mac_separator(c));
    if stripped.len() <= 6 {
        stripped
    } else {
        stripped.subrange(0, 6)
    }
}

impl Node {
    /// Extract OUI from MAC address: the first six characters left once
    /// ':', '-' and '.' are removed, uppercased.
    pub fn extract_oui(mac: &str) -> (r: String)
        ensures
            r@ == unicode_uppercase(spec_oui_prefix(mac@)),
            all_ascii(spec_oui_prefix(mac@)) ==> r@ == spec_oui_prefix(mac@).map_values(
                |c: char| ascii_upper(c),
            ),
    {
        let chars = chars_of(mac);
        let mut stripped: Vec<char> = Vec::new();
        let mut i: usize = 0;
        while i < chars.len()
            invariant
                chars@ == mac@,
                i <= chars@.len(),
                stripped@ == chars@.subrange(0, i as int).filter(|c: char| !is_mac_separator(c)),
            decreases chars.len() - i,
        {
            let c = chars[i];
            proof {
                reveal(Seq::filter);
                assert(chars@.subrange(0, i + 1).drop_last() =~= chars@.subrange(0, i as int));
                assert(chars@.subrange(0, i + 1).last() == c);
            }
            if !(c == ':' || c == '-' || c == '.') {
                stripped.push(c);
            }
            i += 1;
        }
        proof {
            assert(chars@.subrange(0, chars@.len() as int) =~= mac@);
        }
        let mut prefix: Vec<char> = Vec::new();
        let mut k: usize = 0;
        while k < stripped.len() && k < 6
            invariant
                k <= stripped@.len(),
                k <= 6,
                prefix@ == stripped@.subrange(0, k as int),
            decreases 6 - k,
        {
            prefix.push(stripped[k]);
            k += 1;
            proof {
                assert(prefix@ =~= stripped@.subrange(0, k as int));
            }
        }
        proof {
            if stripped@.len() <= 6 {
                assert(prefix@ =~= stripped@);
            }
        }
        let text = string_from_chars(prefix.as_slice());
        to_uppercase(text.as_str())
    }
}

/// In text made of hexadecimal digits and separators, removing the
/// separators keeps exactly the hexadecimal digits.
proof fn lemma_strip_is_hex_digits(s: Seq<char>)
    requires
        forall|i: int| 0 <= i < s.len() ==> is_hex_digit(#[trigger] s[i]) || is_mac_separator(s[i]),
    ensures
        s.filter(|c: char| !is_mac_separator(c)) == hex_digits(s),
    decreases s.len(),
{
    reveal(Seq::filter);
    if s.len() > 0 {
        lemma_strip_is_hex_digits(s.drop_last());
        assert(is_hex_digit(s[s.len() - 1]) || is_mac_separator(s[s.len() - 1]));
    }
}

/// The OUI of a MAC address does not depend on how the address is written:
/// for a MAC made of twelve hexadecimal digits and separators, its OUI
/// (uppercased) is the same as that of its IEEE form.
pub proof fn lemma_oui_ignores_mac_format(mac: Seq<char>)
    requires
        forall|i: int| 0 <= i < mac.len() ==> is_hex_digit(#[trigger] mac[i]) || is_mac_separator(mac[i]),
        hex_digits(mac).len() == 12,
    ensures
        all_ascii(spec_oui_prefix(mac)),
        all_ascii(spec_oui_prefix(spec_format_mac_ieee(mac))),
        spec_oui_prefix(spec_format_mac_ieee(mac)).map_values(|c: char| ascii_upper(c))
            == spec_oui_prefix(mac).map_values(|c: char| ascii_upper(c)),
{
    let h = hex_digits(mac);
    assert forall|i: int| 0 <= i < 12 implies is_hex_digit(#[trigger] h[i]) by {
        mac.lemma_filter_pred(|c: char| is_hex_digit(c), i);
    }
    lemma_strip_is_hex_digits(mac);
    let cp = colon_pairs(h);
    let lowered = Seq::new(12, |j: int| ascii_lower(h[j]));
    assert forall|k: int| 0 <= k < cp.len() implies is_hex_digit(#[trigger] cp[k]) || is_mac_separator(cp[k]) by {
        if k % 3 != 2 {
            assert(is_hex_digit(h[(k / 3) * 2 + k % 3]));
        }
    }
    lemma_strip_is_hex_digits(cp);
    lemma_hex_digits_of_pairs_prefix(h, 17);
    assert(cp.subrange(0, 17) =~= cp);
    assert(lowered.subrange(0, 12) =~= lowered);
    let p1 = spec_oui_prefix(mac);
    let p2 = spec_oui_prefix(spec_format_mac_ieee(mac));
    assert(p1 =~= h.subrange(0, 6));
    assert(p2 =~= lowered.subrange(0, 6));
    assert forall|i: int| 0 <= i < 6 implies (p1[i] as u32) < 128 && (p2[i] as u32) < 128 by {
        assert(is_hex_digit(h[i]));
    }
    assert(p2.map_values(|c: char| ascii_upper(c)) =~= p1.map_values(|c: char| ascii_upper(c)));
}

} // verus!
