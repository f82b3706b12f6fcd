//! Job scheduling: which periodic jobs are due at a given time.

use vstd::prelude::*;

use crate::backend::cron::{
    ScheduleTime,
    cron_matches,
    cron_readable,
    spec_cron_matches,
    spec_cron_readable,
};
use crate::config::settings::{ScheduleConfig, ScheduleEntry};
use crate::web::auth::spec_valid_job_actions;

verus! {

/// discoverall by default: '5 7 * * *' (7:05 AM daily).
pub open spec fn default_discoverall(t: ScheduleTime) -> bool {
    t.hour == 7 && t.minute == 5
}

/// macwalk by default: every 20 minutes.
pub open spec fn default_macwalk(t: ScheduleTime) -> bool {
    t.minute == 20 || t.minute == 40 || t.minute == 0
}

/// arpwalk by default: every 50 minutes (counted from the Unix epoch).
pub open spec fn default_arpwalk(t: ScheduleTime) -> bool {
    t.epoch_minutes % 50 == 0
}

/// nbtwalk by default: '0 8,13,21 * * *'.
pub open spec fn default_nbtwalk(t: ScheduleTime) -> bool {
    t.minute == 0 && (t.hour == 8 || t.hour == 13 || t.hour == 21)
}

/// expire by default: '30 23 * * *'.
pub open spec fn default_expire(t: ScheduleTime) -> bool {
    t.hour == 23 && t.minute == 30
}

/// Whether a job is due: by its configured cron specification when one is
/// set and readable, otherwise by its default.
pub open spec fn spec_entry_due(entry: Option<ScheduleEntry>, default_due: bool, t: ScheduleTime) -> bool {
    match entry {
        Some(e) => if spec_cron_readable(e.when@) {
            spec_cron_matches(e.when@, t)
        } else {
            default_due
        },
        None => default_due,
    }
}

/// `name` when `due`, nothing otherwise.
pub open spec fn when_due(due: bool, name: Seq<char>) -> Seq<Seq<char>> {
    if due {
        seq![name]
    } else {
        Seq::empty()
    }
}

/// The jobs due at `t`, in the order they are enqueued: discoverall,
/// macwalk, arpwalk, nbtwalk, expire.
pub open spec fn spec_scheduled_actions(schedule: ScheduleConfig, t: ScheduleTime) -> Seq<Seq<char>> {
    when_due(spec_entry_due(schedule.discoverall, default_discoverall(t), t), "discoverall"@)
        + when_due(spec_entry_due(schedule.macwalk, default_macwalk(t), t), "macwalk"@)
        + when_due(spec_entry_due(schedule.arpwalk, default_arpwalk(t), t), "arpwalk"@)
        + when_due(spec_entry_due(schedule.nbtwalk, default_nbtwalk(t), t), "nbtwalk"@)
        + when_due(spec_entry_due(schedule.expire, default_expire(t), t), "expire"@)
}

fn entry_due(entry: &Option<ScheduleEntry>, default_due: bool, t: &ScheduleTime) -> (r: bool)
    ensures
        r == spec_entry_due(*entry, default_due, *t),
{
    match entry {
        Some(e) => if cron_readable(e.when.as_str()) {
            cron_matches(e.when.as_str(), t)
        } else {
            default_due
        },
        None => default_due,
    }
}

/// The actions of the periodic jobs due at `t`.
pub fn scheduled_actions(schedule: &ScheduleConfig, t: &ScheduleTime) -> (r: Vec<&'static str>)
    ensures
        r@.map_values(|a: &str| a@) == spec_scheduled_actions(*schedule, *t),
{
    let mut due: Vec<&'static str> = Vec::new();
    if entry_due(&schedule.discoverall, t.hour == 7 && t.minute == 5, t) {
        due.push("discoverall");
    }
    if entry_due(&schedule.macwalk, t.minute == 20 || t.minute == 40 || t.minute == 0, t) {
        due.push("macwalk");
    }
    if entry_due(&schedule.arpwalk, t.epoch_minutes % 50 == 0, t) {
        due.push("arpwalk");
    }
    if entry_due(
        &schedule.nbtwalk,
        t.minute == 0 && (t.hour == 8 || t.hour == 13 || t.hour == 21),
        t,
    ) {
        due.push("nbtwalk");
    }
    if entry_due(&schedule.expire, t.hour == 23 && t.minute == 30, t) {
        due.push("expire");
    }
    proof {
        assert(due@.map_values(|a: &str| a@) =~= spec_scheduled_actions(*schedule, *t));
    }
    due
}

/// A schedule with no entry set: every job runs at its default times.
pub open spec fn no_schedule(s: ScheduleConfig) -> bool {
    &&& s.discoverall is None
    &&& s.macwalk is None
    &&& s.arpwalk is None
    &&& s.nbtwalk is None
    &&& s.expire is None
}

/// Every job the scheduler enqueues has an action that the queue accepts.
pub proof fn lemma_scheduled_actions_are_valid(schedule: ScheduleConfig, t: ScheduleTime)
    ensures
        forall|i: int|
            0 <= i < spec_scheduled_actions(schedule, t).len() ==> spec_valid_job_actions().contains(
                #[trigger] spec_scheduled_actions(schedule, t)[i],
            ),
{
    let v = spec_valid_job_actions();
    assert(v[1] == "discoverall"@);
    assert(v[3] == "macwalk"@);
    assert(v[5] == "arpwalk"@);
    assert(v[7] == "nbtwalk"@);
    assert(v[8] == "expire"@);
}

/// Appending a name whose first character no earlier name starts with
/// keeps the names distinct.
proof fn lemma_append_name(s: Seq<Seq<char>>, d: bool, x: Seq<char>, firsts: Set<char>)
    requires
        s.no_duplicates(),
        forall|i: int| 0 <= i < s.len() ==> #[trigger] s[i].len() > 0 && firsts.contains(s[i][0]),
        x.len() > 0,
        !firsts.contains(x[0]),
    ensures
        (s + when_due(d, x)).no_duplicates(),
        forall|i: int|
            0 <= i < (s + when_due(d, x)).len() ==> #[trigger] (s + when_due(d, x))[i].len() > 0
                && firsts.insert(x[0]).contains((s + when_due(d, x))[i][0]),
{
    let r = s + when_due(d, x);
    assert forall|i: int, j: int| 0 <= i < r.len() && 0 <= j < r.len() && i != j implies r[i] != r[j] by {
        if i < s.len() && j < s.len() {
            assert(r[i] == s[i] && r[j] == s[j]);
        } else if i < s.len() {
            assert(r[i] == s[i]);
            assert(r[j] == x);
            assert(firsts.contains(s[i][0]));
        } else if j < s.len() {
            assert(r[j] == s[j]);
            assert(r[i] == x);
            assert(firsts.contains(s[j][0]));
        }
    }
    assert forall|i: int| 0 <= i < r.len() implies #[trigger] r[i].len() > 0 && firsts.insert(x[0]).contains(r[i][0]) by {
        if i < s.len() {
            assert(r[i] == s[i]);
        } else {
            assert(r[i] == x);
        }
    }
}

/// No action is due twice at the same time.
pub proof fn lemma_scheduled_actions_distinct(schedule: ScheduleConfig, t: ScheduleTime)
    ensures
        spec_scheduled_actions(schedule, t).no_duplicates(),
{
    reveal_strlit("discoverall");
    reveal_strlit("macwalk");
    reveal_strlit("arpwalk");
    reveal_strlit("nbtwalk");
    reveal_strlit("expire");
    let d1 = spec_entry_due(schedule.discoverall, default_discoverall(t), t);
    let d2 = spec_entry_due(schedule.macwalk, default_macwalk(t), t);
    let d3 = spec_entry_due(schedule.arpwalk, default_arpwalk(t), t);
    let d4 = spec_entry_due(schedule.nbtwalk, default_nbtwalk(t), t);
    let d5 = spec_entry_due(schedule.expire, default_expire(t), t);
    let e = Seq::<Seq<char>>::empty();
    let f0 = Set::<char>::empty();
    lemma_append_name(e, d1, "discoverall"@, f0);
    let s1 = e + when_due(d1, "discoverall"@);
    let f1 = f0.insert('d');
    lemma_append_name(s1, d2, "macwalk"@, f1);
    let s2 = s1 + when_due(d2, "macwalk"@);
    let f2 = f1.insert('m');
    lemma_append_name(s2, d3, "arpwalk"@, f2);
    let s3 = s2 + when_due(d3, "arpwalk"@);
    let f3 = f2.insert('a');
    lemma_append_name(s3, d4, "nbtwalk"@, f3);
    let s4 = s3 + when_due(d4, "nbtwalk"@);
    let f4 = f3.insert('n');
    lemma_append_name(s4, d5, "expire"@, f4);
    assert(e + when_due(d1, "discoverall"@) =~= when_due(d1, "discoverall"@));
}

/// A configured job runs exactly when its cron specification says: with a
/// readable macwalk entry, macwalk is due at `t` exactly when the entry
/// matches `t`.
pub proof fn lemma_configured_macwalk(schedule: ScheduleConfig, t: ScheduleTime)
    requires
        schedule.macwalk matches Some(e) && spec_cron_readable(e.when@),
    ensures
        spec_scheduled_actions(schedule, t).contains("macwalk"@) <==> spec_cron_matches(
            schedule.macwalk->0.when@,
            t,
        ),
{
    reveal_strlit("discoverall");
    reveal_strlit("macwalk");
    reveal_strlit("arpwalk");
    reveal_strlit("nbtwalk");
    reveal_strlit("expire");
    let s = spec_scheduled_actions(schedule, t);
    let first = when_due(
        spec_entry_due(schedule.discoverall, default_discoverall(t), t),
        "discoverall"@,
    );
    if spec_cron_matches(schedule.macwalk->0.when@, t) {
        assert(s[first.len() as int] == "macwalk"@);
    } else {
        assert forall|i: int| 0 <= i < s.len() implies s[i] != "macwalk"@ by {
            assert(s[i].len() != 7 || s[i][0] != 'm');
        }
    }
}

/// With no schedule configured, the discovery of all devices is due exactly
/// once a day, at 7:05.
pub proof fn lemma_discoverall_once_a_day(schedule: ScheduleConfig, t: ScheduleTime)
    requires
        no_schedule(schedule),
    ensures
        spec_scheduled_actions(schedule, t).contains("discoverall"@) <==> (t.hour == 7 && t.minute
            == 5),
{
    reveal_strlit("discoverall");
    reveal_strlit("macwalk");
    reveal_strlit("arpwalk");
    reveal_strlit("nbtwalk");
    reveal_strlit("expire");
    let s = spec_scheduled_actions(schedule, t);
    if t.hour == 7 && t.minute == 5 {
        assert(s[0] == "discoverall"@);
    } else {
        assert forall|i: int| 0 <= i < s.len() implies s[i] != "discoverall"@ by {
            assert(s[i].len() != 11 || s[i][0] != 'd');
        }
    }
}

/// Whether arpwalk is due at `t`.
pub open spec fn arpwalk_due(schedule: ScheduleConfig, t: ScheduleTime) -> bool {
    spec_scheduled_actions(schedule, t).contains("arpwalk"@)
}

proof fn lemma_arpwalk_default(schedule: ScheduleConfig, t: ScheduleTime)
    requires
        no_schedule(schedule),
    ensures
        arpwalk_due(schedule, t) <==> t.epoch_minutes % 50 == 0,
{
    reveal_strlit("discoverall");
    reveal_strlit("macwalk");
    reveal_strlit("arpwalk");
    reveal_strlit("nbtwalk");
    reveal_strlit("expire");
    let s = spec_scheduled_actions(schedule, t);
    let a = when_due(default_discoverall(t), "discoverall"@);
    let b = when_due(default_macwalk(t), "macwalk"@);
    if t.epoch_minutes % 50 == 0 {
        assert(s[(a.len() + b.len()) as int] == "arpwalk"@);
    } else {
        assert forall|i: int| 0 <= i < s.len() implies s[i] != "arpwalk"@ by {
            assert(s[i].len() != 7 || s[i][0] != 'a');
        }
    }
}

/// With no schedule configured, arpwalk runs every 50 minutes: fifty
/// minutes after a run it is due again, and never in between.
pub proof fn lemma_arpwalk_every_50_minutes(schedule: ScheduleConfig, t1: ScheduleTime, t2: ScheduleTime)
    requires
        no_schedule(schedule),
        arpwalk_due(schedule, t1),
        t1.epoch_minutes < t2.epoch_minutes,
    ensures
        t2.epoch_minutes < t1.epoch_minutes + 50 ==> !arpwalk_due(schedule, t2),
        t2.epoch_minutes == t1.epoch_minutes + 50 ==> arpwalk_due(schedule, t2),
{
    lemma_arpwalk_default(schedule, t1);
    lemma_arpwalk_default(schedule, t2);
}

} // verus!
