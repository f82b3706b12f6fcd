//! Cron specifications ("minute hour day-of-month month day-of-week") and
//! whether one is due at a given local time.

use vstd::prelude::*;

use crate::util::text::{
    chars_of,
    lemma_decimal_has_no,
    lemma_parse_decimal,
    lemma_split_without_separator,
    parse_usize,
    spec_decimal,
    spec_parse_usize,
    spec_split,
    split_char,
    strings_view,
};

verus! {

/// A local time as the scheduler sees it, with the minutes since the Unix
/// epoch for schedules that are not tied to the clock face.
#[derive(Debug, Clone, Copy, PartialEq, Eq, Structural)]
pub struct ScheduleTime {
    /// 0-59
    pub minute: u32,
    /// 0-23
    pub hour: u32,
    /// 1-31
    pub day: u32,
    /// 1-12
    pub month: u32,
    /// 0-6, Sunday first
    pub weekday: u32,
    pub epoch_minutes: u64,
}

/// The non-empty pieces of `s` between spaces.
pub open spec fn spec_words(s: Seq<char>) -> Seq<Seq<char>> {
    spec_split(s, ' ').filter(|w: Seq<char>| w.len() > 0)
}

/// The values an item's base stands for: '*' the whole field, "a" the single
/// value (or from `a` to the top when a step follows), "a-b" the range.
pub open spec fn spec_item_range(base: Seq<char>, lo: nat, hi: nat, stepped: bool) -> Option<(nat, nat)> {
    if base == seq!['*'] {
        Some((lo, hi))
    } else {
        let r = spec_split(base, '-');
        if r.len() == 1 {
            match spec_parse_usize(base) {
                Some(a) => if stepped {
                    Some((a as nat, hi))
                } else {
                    Some((a as nat, a as nat))
                },
                None => None,
            }
        } else if r.len() == 2 {
            match spec_parse_usize(r[0]) {
                Some(a) => match spec_parse_usize(r[1]) {
                    Some(b) => Some((a as nat, b as nat)),
                    None => None,
                },
                None => None,
            }
        } else {
            None
        }
    }
}

/// Whether one comma-separated item of a field ("*", "a", "a-b", each
/// optionally followed by "/step") takes the value `v`; an unreadable item
/// takes none.
pub open spec fn spec_item_matches(item: Seq<char>, v: nat, lo: nat, hi: nat) -> bool {
    let parts = spec_split(item, '/');
    if parts.len() == 1 {
        match spec_item_range(parts[0], lo, hi, false) {
            Some(r) => r.0 <= v <= r.1,
            None => false,
        }
    } else if parts.len() == 2 {
        match spec_parse_usize(parts[1]) {
            Some(step) => step > 0 && match spec_item_range(parts[0], lo, hi, true) {
                Some(r) => r.0 <= v <= r.1 && (v - r.0) % (step as int) == 0,
                None => false,
            },
            None => false,
        }
    } else {
        false
    }
}

/// Whether a field (comma-separated items) takes the value `v`.
pub open spec fn spec_field_matches(field: Seq<char>, v: nat, lo: nat, hi: nat) -> bool {
    exists|i: int|
        0 <= i < spec_split(field, ',').len() && spec_item_matches(
            #[trigger] spec_split(field, ',')[i],
            v,
            lo,
            hi,
        )
}

/// Whether a field starts with '*' (an unrestricted day field).
pub open spec fn starts_with_star(field: Seq<char>) -> bool {
    field.len() > 0 && field[0] == '*'
}

/// A cron specification that can be read: five fields.
pub open spec fn spec_cron_readable(when: Seq<char>) -> bool {
    spec_words(when).len() == 5
}

/// Whether a five-field cron specification is due at `t`: minute, hour and
/// month must match; of day-of-month and day-of-week (where 7 is Sunday too)
/// both must match when either starts with '*', and either otherwise.
pub open spec fn spec_cron_matches(when: Seq<char>, t: ScheduleTime) -> bool {
    let w = spec_words(when);
    let dom = spec_field_matches(w[2], t.day as nat, 1, 31);
    let dow = spec_field_matches(w[4], t.weekday as nat, 0, 7) || (t.weekday == 0
        && spec_field_matches(w[4], 7, 0, 7));
    let day_ok = if starts_with_star(w[2]) || starts_with_star(w[4]) {
        dom && dow
    } else {
        dom || dow
    };
    &&& spec_field_matches(w[0], t.minute as nat, 0, 59)
    &&& spec_field_matches(w[1], t.hour as nat, 0, 23)
    &&& spec_field_matches(w[3], t.month as nat, 1, 12)
    &&& day_ok
}

/// The non-empty pieces of `s` between spaces.
pub fn words(s: &str) -> (r: Vec<String>)
    ensures
        strings_view(r@) == spec_words(s@),
{
    let pieces = split_char(s, ' ');
    let ghost pv = strings_view(pieces@);
    let mut out: Vec<String> = Vec::new();
    let mut i: usize = 0;
    while i < pieces.len()
        invariant
            i <= pieces@.len(),
            pv == strings_view(pieces@),
            strings_view(out@) == pv.subrange(0, i as int).filter(|w: Seq<char>| w.len() > 0),
        decreases pieces.len() - i,
    {
        proof {
            reveal(Seq::filter);
            assert(pv.subrange(0, i + 1).drop_last() =~= pv.subrange(0, i as int));
            assert(pv.subrange(0, i + 1).last() == pieces@[i as int]@);
        }
        let n = chars_of(pieces[i].as_str()).len();
        if n > 0 {
            let ghost before = out@;
            out.push(pieces[i].clone());
            proof {
                assert(strings_view(out@) =~= strings_view(before).push(pieces@[i as int]@));
            }
        }
        i += 1;
    }
    proof {
        assert(pv.subrange(0, pieces@.len() as int) =~= pv);
    }
    out
}

fn item_range(base: &str, lo: u32, hi: u32, stepped: bool) -> (r: Option<(usize, usize)>)
    ensures
        match spec_item_range(base@, lo as nat, hi as nat, stepped) {
            Some(x) => r matches Some(y) && y.0 as nat == x.0 && y.1 as nat == x.1,
            None => r is None,
        },
{
    let cs = chars_of(base);
    if cs.len() == 1 && cs[0] == '*' {
        proof {
            assert(base@ =~= seq!['*']);
        }
        return Some((lo as usize, hi as usize));
    }
    proof {
        if base@ == seq!['*'] {
            assert(cs@.len() == 1 && cs@[0] == '*');
        }
    }
    let r = split_char(base, '-');
    proof {
        assert(strings_view(r@).len() == r@.len());
    }
    if r.len() == 1 {
        match parse_usize(cs.as_slice()) {
            Some(a) => if stepped {
                Some((a, hi as usize))
            } else {
                Some((a, a))
            },
            None => None,
        }
    } else if r.len() == 2 {
        proof {
            assert(strings_view(r@)[0] == r@[0]@);
            assert(strings_view(r@)[1] == r@[1]@);
        }
        let a = parse_usize(chars_of(r[0].as_str()).as_slice());
        let b = parse_usize(chars_of(r[1].as_str()).as_slice());
        match a {
            Some(a) => match b {
                Some(b) => Some((a, b)),
                None => None,
            },
            None => None,
        }
    } else {
        None
    }
}

fn item_matches(item: &str, v: u32, lo: u32, hi: u32) -> (r: bool)
    ensures
        r == spec_item_matches(item@, v as nat, lo as nat, hi as nat),
{
    let parts = split_char(item, '/');
    proof {
        assert(strings_view(parts@).len() == parts@.len());
    }
    if parts.len() == 1 {
        proof {
            assert(strings_view(parts@)[0] == parts@[0]@);
        }
        match item_range(parts[0].as_str(), lo, hi, false) {
            Some((a, b)) => a <= v as usize && v as usize <= b,
            None => false,
        }
    } else if parts.len() == 2 {
        proof {
            assert(strings_view(parts@)[0] == parts@[0]@);
            assert(strings_view(parts@)[1] == parts@[1]@);
        }
        match parse_usize(chars_of(parts[1].as_str()).as_slice()) {
            Some(step) => {
                if step == 0 {
                    return false;
                }
                match item_range(parts[0].as_str(), lo, hi, true) {
                    Some((a, b)) => a <= v as usize && v as usize <= b && (v as usize - a) % step
                        == 0,
                    None => false,
                }
            },
            None => false,
        }
    } else {
        false
    }
}

/// Whether a field (comma-separated items) takes the value `v`.
pub fn field_matches(field: &str, v: u32, lo: u32, hi: u32) -> (r: bool)
    ensures
        r == spec_field_matches(field@, v as nat, lo as nat, hi as nat),
{
    let items = split_char(field, ',');
    let ghost iv = strings_view(items@);
    let mut i: usize = 0;
    while i < items.len()
        invariant
            i <= items@.len(),
            iv == strings_view(items@),
            iv == spec_split(field@, ','),
            forall|j: int| 0 <= j < i ==> !spec_item_matches(#[trigger] iv[j], v as nat, lo as nat, hi as nat),
        decreases items.len() - i,
    {
        proof {
            assert(iv[i as int] == items@[i as int]@);
        }
        if item_matches(items[i].as_str(), v, lo, hi) {
            return true;
        }
        i += 1;
    }
    proof {
        assert forall|j: int| 0 <= j < iv.len() implies !spec_item_matches(
            #[trigger] spec_split(field@, ',')[j],
            v as nat,
            lo as nat,
            hi as nat,
        ) by {
            assert(iv[j] == spec_split(field@, ',')[j]);
        }
    }
    false
}

/// Whether a cron specification has the five fields it needs.
pub fn cron_readable(when: &str) -> (r: bool)
    ensures
        r == spec_cron_readable(when@),
{
    words(when).len() == 5
}

/// Whether a cron specification with five fields is due at `t`.
pub fn cron_matches(when: &str, t: &ScheduleTime) -> (r: bool)
    requires
        spec_cron_readable(when@),
    ensures
        r == spec_cron_matches(when@, *t),
{
    let w = words(when);
    let ghost wv = strings_view(w@);
    proof {
        assert(wv[0] == w@[0]@);
        assert(wv[1] == w@[1]@);
        assert(wv[2] == w@[2]@);
        assert(wv[3] == w@[3]@);
        assert(wv[4] == w@[4]@);
    }
    let minute_ok = field_matches(w[0].as_str(), t.minute, 0, 59);
    let hour_ok = field_matches(w[1].as_str(), t.hour, 0, 23);
    let month_ok = field_matches(w[3].as_str(), t.month, 1, 12);
    let dom = field_matches(w[2].as_str(), t.day, 1, 31);
    let dow = field_matches(w[4].as_str(), t.weekday, 0, 7) || (t.weekday == 0 && field_matches(
        w[4].as_str(),
        7,
        0,
        7,
    ));
    let dom_star = {
        let c = chars_of(w[2].as_str());
        c.len() > 0 && c[0] == '*'
    };
    let dow_star = {
        let c = chars_of(w[4].as_str());
        c.len() > 0 && c[0] == '*'
    };
    let day_ok = if dom_star || dow_star {
        dom && dow
    } else {
        dom || dow
    };
    minute_ok && hour_ok && month_ok && day_ok
}

/// A cron specification is due only when its minute, hour and month fields
/// all take the time's minute, hour and month: a mismatch in any of them
/// means it is not due.
pub proof fn lemma_cron_needs_minute_hour_month(when: Seq<char>, t: ScheduleTime)
    requires
        spec_cron_readable(when),
    ensures
        !spec_field_matches(spec_words(when)[0], t.minute as nat, 0, 59) ==> !spec_cron_matches(when, t),
        !spec_field_matches(spec_words(when)[1], t.hour as nat, 0, 23) ==> !spec_cron_matches(when, t),
        !spec_field_matches(spec_words(when)[3], t.month as nat, 1, 12) ==> !spec_cron_matches(when, t),
{
}

/// A cron specification is due only on a matching day: when neither the
/// day-of-month nor the day-of-week field takes the time's day, it is not
/// due.
pub proof fn lemma_cron_needs_a_day(when: Seq<char>, t: ScheduleTime)
    requires
        spec_cron_readable(when),
        !spec_field_matches(spec_words(when)[2], t.day as nat, 1, 31),
        !spec_field_matches(spec_words(when)[4], t.weekday as nat, 0, 7),
        !spec_field_matches(spec_words(when)[4], 7, 0, 7),
    ensures
        !spec_cron_matches(when, t),
{
}

/// A field that is a single number `n` (its decimal digits) takes exactly
/// the value `n`.
pub proof fn lemma_number_field(n: nat, v: nat, lo: nat, hi: nat)
    requires
        n <= u32::MAX,
    ensures
        spec_field_matches(spec_decimal(n), v, lo, hi) <==> v == n,
{
    let f = spec_decimal(n);
    lemma_decimal_has_no(n, ',');
    lemma_decimal_has_no(n, '/');
    lemma_decimal_has_no(n, '-');
    lemma_decimal_has_no(n, '*');
    lemma_split_without_separator(f, ',');
    lemma_split_without_separator(f, '/');
    lemma_split_without_separator(f, '-');
    lemma_parse_decimal(n);
    assert(f != seq!['*']) by {
        if f == seq!['*'] {
            assert(f[0] == '*');
            assert(f.contains('*'));
        }
    }
    assert(spec_split(f, ',')[0] == f);
    if v == n {
        assert(spec_item_matches(spec_split(f, ',')[0], v, lo, hi));
    }
}

/// The field "*" takes every value of its range and no other.
pub proof fn lemma_star_field(v: nat, lo: nat, hi: nat)
    ensures
        spec_field_matches(seq!['*'], v, lo, hi) <==> lo <= v <= hi,
{
    let f = seq!['*'];
    assert(!f.contains(',')) by {
        if f.contains(',') {
            let k = choose|k: int| 0 <= k < f.len() && f[k] == ',';
        }
    }
    assert(!f.contains('/')) by {
        if f.contains('/') {
            let k = choose|k: int| 0 <= k < f.len() && f[k] == '/';
        }
    }
    lemma_split_without_separator(f, ',');
    lemma_split_without_separator(f, '/');
    assert(spec_split(f, ',')[0] == f);
    if lo <= v <= hi {
        assert(spec_item_matches(spec_split(f, ',')[0], v, lo, hi));
    }
}

/// A cron specification whose month field is a single month `m` is not due
/// in any other month.
pub proof fn lemma_cron_other_month(when: Seq<char>, m: nat, t: ScheduleTime)
    requires
        spec_cron_readable(when),
        m <= 12,
        spec_words(when)[3] == spec_decimal(m),
        t.month != m,
    ensures
        !spec_cron_matches(when, t),
{
    lemma_number_field(m, t.month as nat, 1, 12);
}

} // verus!
