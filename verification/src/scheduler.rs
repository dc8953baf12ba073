//! When a time-based task is due. The shell ticks once per second, reads the
//! local clock and hands each enabled task's trigger, its last launch and the
//! current time to `task_due`.
use vstd::prelude::*;

use crate::model::{Task, Trigger};
use crate::text;

verus! {

/// A local date-time as the clock reports it: the calendar fields in local
/// time, the weekday (0 = Sunday) and the instant as seconds and
/// nanoseconds since the Unix epoch.
#[derive(Debug, Clone, Copy)]
pub struct LocalTime {
    pub year: i32,
    pub month: u32,
    pub day: u32,
    pub hour: u32,
    pub minute: u32,
    pub second: u32,
    pub nanosecond: u32,
    pub weekday_from_sunday: u32,
    pub timestamp: i64,
}

/// Whether the local wall-clock time `t` comes strictly before
/// `y-mo-d h:mi:00.000000000`.
pub open spec fn before(t: LocalTime, y: int, mo: int, d: int, h: int, mi: int) -> bool {
    if t.year != y {
        t.year < y
    } else if t.month != mo {
        t.month < mo
    } else if t.day != d {
        t.day < d
    } else if t.hour != h {
        t.hour < h
    } else if t.minute != mi {
        t.minute < mi
    } else {
        false
    }
}

pub open spec fn same_date(a: LocalTime, b: LocalTime) -> bool {
    a.year == b.year && a.month == b.month && a.day == b.day
}

/// `TimeDelta::num_seconds`: whole seconds, truncated toward zero.
pub open spec fn whole_seconds_between(now: LocalTime, then: LocalTime) -> int {
    let nanos = (now.timestamp - then.timestamp) * 1_000_000_000 + (now.nanosecond
        - then.nanosecond);
    if nanos >= 0 {
        nanos / 1_000_000_000
    } else {
        -((-nanos) / 1_000_000_000)
    }
}

pub open spec fn interval_due_spec(last: Option<LocalTime>, now: LocalTime, every: u64) -> bool {
    match last {
        Some(t) => whole_seconds_between(now, t) >= (every as i64),
        None => true,
    }
}

/// Past today's `h:m` target and not yet run since it.
pub open spec fn target_due_spec(last: Option<LocalTime>, now: LocalTime, h: u32, m: u32) -> bool {
    if h >= 24 || m >= 60 {
        false
    } else if before(now, now.year as int, now.month as int, now.day as int, h as int, m as int) {
        false
    } else {
        match last {
            Some(t) => before(t, now.year as int, now.month as int, now.day as int, h as int, m as int),
            None => true,
        }
    }
}

pub open spec fn is_leap(year: int) -> bool {
    (year % 4 == 0 && year % 100 != 0) || year % 400 == 0
}

pub open spec fn days_in_month_spec(year: int, month: int) -> int {
    if month == 1 || month == 3 || month == 5 || month == 7 || month == 8 || month == 10 || month
        == 12 {
        31
    } else if month == 4 || month == 6 || month == 9 || month == 11 {
        30
    } else if month == 2 {
        if is_leap(year) {
            29
        } else {
            28
        }
    } else {
        30
    }
}

pub open spec fn clamp(v: int, lo: int, hi: int) -> int {
    if v < lo {
        lo
    } else if v > hi {
        hi
    } else {
        v
    }
}

pub open spec fn weekly_due_spec(
    last: Option<LocalTime>,
    now: LocalTime,
    days: Seq<u8>,
    h: u32,
    m: u32,
) -> bool {
    days.contains(now.weekday_from_sunday as u8) && target_due_spec(last, now, h, m)
}

pub open spec fn monthly_due_spec(
    last: Option<LocalTime>,
    now: LocalTime,
    day: u8,
    h: u32,
    m: u32,
) -> bool {
    now.day == clamp(day as int, 1, days_in_month_spec(now.year as int, now.month as int))
        && target_due_spec(last, now, h, m)
}

/// `"HH:MM"` with surrounding whitespace allowed around each number; any
/// further `:`-separated part is ignored.
pub open spec fn parse_hhmm_spec(s: Seq<char>) -> Option<(u32, u32)> {
    let parts = text::split_by(s, text::sep_either(':', ':'));
    match text::parse_unsigned(text::trim(parts[0]), u32::MAX as nat) {
        None => None,
        Some(h) => if parts.len() < 2 {
            None
        } else {
            match text::parse_unsigned(text::trim(parts[1]), u32::MAX as nat) {
                None => None,
                Some(m) => if h < 24 && m < 60 {
                    Some((h as u32, m as u32))
                } else {
                    None
                },
            }
        },
    }
}

/// Whether a trigger is due at `now`, given the task's last launch.
pub open spec fn trigger_due(trigger: Trigger, last: Option<LocalTime>, now: LocalTime) -> bool {
    match trigger {
        Trigger::Interval { every_secs } => interval_due_spec(
            last,
            now,
            if every_secs < 1 {
                1
            } else {
                every_secs
            },
        ),
        Trigger::Daily { at } => match parse_hhmm_spec(at@) {
            Some((h, m)) => target_due_spec(last, now, h, m),
            None => false,
        },
        Trigger::Weekly { days, at } => match parse_hhmm_spec(at@) {
            Some((h, m)) => weekly_due_spec(last, now, days@, h, m),
            None => false,
        },
        Trigger::Monthly { day, at } => match parse_hhmm_spec(at@) {
            Some((h, m)) => monthly_due_spec(last, now, day, h, m),
            None => false,
        },
        _ => false,
    }
}

fn before_exec(t: &LocalTime, y: i32, mo: u32, d: u32, h: u32, mi: u32) -> (res: bool)
    ensures
        res == before(*t, y as int, mo as int, d as int, h as int, mi as int),
{
    if t.year != y {
        t.year < y
    } else if t.month != mo {
        t.month < mo
    } else if t.day != d {
        t.day < d
    } else if t.hour != h {
        t.hour < h
    } else if t.minute != mi {
        t.minute < mi
    } else {
        false
    }
}

fn whole_seconds(now: &LocalTime, then: &LocalTime) -> (res: i128)
    ensures
        res == whole_seconds_between(*now, *then),
{
    let nanos: i128 = (now.timestamp as i128 - then.timestamp as i128) * 1_000_000_000i128 + (
    now.nanosecond as i128 - then.nanosecond as i128);
    if nanos >= 0 {
        nanos / 1_000_000_000i128
    } else {
        -((-nanos) / 1_000_000_000i128)
    }
}

/// Interval trigger: the first run is due at once, later runs once `every`
/// seconds have passed since the last launch.
pub fn interval_due(last: Option<LocalTime>, now: LocalTime, every: u64) -> (res: bool)
    ensures
        res == interval_due_spec(last, now, every),
{
    match last {
        Some(t) => {
            let e = every as i64;
            whole_seconds(&now, &t) >= e as i128
        },
        None => true,
    }
}

/// Due when we are past today's target time and have not run since it;
/// robust to missing the exact minute.
pub fn target_due(last: Option<LocalTime>, now: LocalTime, h: u32, m: u32) -> (res: bool)
    ensures
        res == target_due_spec(last, now, h, m),
{
    if h >= 24 || m >= 60 {
        return false;
    }
    if before_exec(&now, now.year, now.month, now.day, h, m) {
        return false;
    }
    match last {
        Some(t) => before_exec(&t, now.year, now.month, now.day, h, m),
        None => true,
    }
}

pub fn daily_due(last: Option<LocalTime>, now: LocalTime, h: u32, m: u32) -> (res: bool)
    ensures
        res == target_due_spec(last, now, h, m),
{
    target_due(last, now, h, m)
}

pub fn weekly_due(last: Option<LocalTime>, now: LocalTime, days: &Vec<u8>, h: u32, m: u32) -> (res:
    bool)
    ensures
        res == weekly_due_spec(last, now, days@, h, m),
{
    let wd = now.weekday_from_sunday as u8;
    let mut i: usize = 0;
    let mut found = false;
    while i < days.len()
        invariant
            i <= days.len(),
            found == days@.take(i as int).contains(wd),
        decreases days.len() - i,
    {
        let ghost t = days@.take(i + 1);
        assert(t =~= days@.take(i as int).push(days@[i as int]));
        if days[i] == wd {
            assert(t[i as int] == wd);
            found = true;
        } else {
            proof {
                if t.contains(wd) {
                    let k = choose|k: int| 0 <= k < t.len() && t[k] == wd;
                    assert(days@.take(i as int)[k] == wd);
                }
                if days@.take(i as int).contains(wd) {
                    let k = choose|k: int| 0 <= k < i && days@.take(i as int)[k] == wd;
                    assert(t[k] == wd);
                }
            }
        }
        i += 1;
    }
    assert(days@.take(days.len() as int) =~= days@);
    if !found {
        return false;
    }
    target_due(last, now, h, m)
}

pub fn days_in_month(year: i32, month: u32) -> (res: u32)
    ensures
        res == days_in_month_spec(year as int, month as int),
        28 <= res <= 31,
{
    if month == 1 || month == 3 || month == 5 || month == 7 || month == 8 || month == 10 || month
        == 12 {
        31
    } else if month == 4 || month == 6 || month == 9 || month == 11 {
        30
    } else if month == 2 {
        if (year % 4 == 0 && year % 100 != 0) || year % 400 == 0 {
            29
        } else {
            28
        }
    } else {
        30
    }
}

pub fn monthly_due(last: Option<LocalTime>, now: LocalTime, day: u8, h: u32, m: u32) -> (res: bool)
    ensures
        res == monthly_due_spec(last, now, day, h, m),
{
    let dim = days_in_month(now.year, now.month);
    let d = day as u32;
    let eff = if d < 1 {
        1
    } else if d > dim {
        dim
    } else {
        d
    };
    if now.day != eff {
        return false;
    }
    target_due(last, now, h, m)
}

/// Parses `"HH:MM"` into an hour below 24 and a minute below 60.
pub fn parse_hhmm(s: &str) -> (res: Option<(u32, u32)>)
    ensures
        res == parse_hhmm_spec(s@),
        res matches Some((h, m)) ==> h < 24 && m < 60,
{
    let chars = text::chars_of(s);
    let parts = text::split_on(&chars, ':', ':');
    let first = text::trim_chars(&parts[0]);
    let h = match text::parse_unsigned_chars(&first, 4294967295u64) {
        Some(v) => v,
        None => return None,
    };
    if parts.len() < 2 {
        return None;
    }
    let second = text::trim_chars(&parts[1]);
    let m = match text::parse_unsigned_chars(&second, 4294967295u64) {
        Some(v) => v,
        None => return None,
    };
    if h < 24 && m < 60 {
        Some((h as u32, m as u32))
    } else {
        None
    }
}

/// Whether a trigger fires at `now`; only interval, daily, weekly and monthly
/// triggers are time-based.
pub fn due(trigger: &Trigger, last: Option<LocalTime>, now: LocalTime) -> (res: bool)
    ensures
        res == trigger_due(*trigger, last, now),
{
    match trigger {
        Trigger::Interval { every_secs } => {
            let every = if *every_secs < 1 {
                1
            } else {
                *every_secs
            };
            interval_due(last, now, every)
        },
        Trigger::Daily { at } => match parse_hhmm(at.as_str()) {
            Some((h, m)) => daily_due(last, now, h, m),
            None => false,
        },
        Trigger::Weekly { days, at } => match parse_hhmm(at.as_str()) {
            Some((h, m)) => weekly_due(last, now, days, h, m),
            None => false,
        },
        Trigger::Monthly { day, at } => match parse_hhmm(at.as_str()) {
            Some((h, m)) => monthly_due(last, now, *day, h, m),
            None => false,
        },
        _ => false,
    }
}

/// Whether the scheduler launches a task now: it must be in the working
/// library, switched on, and its time-based trigger due.
pub fn task_due(task: &Task, last: Option<LocalTime>, now: LocalTime) -> (res: bool)
    ensures
        res == (task.active && task.enabled && trigger_due(task.trigger, last, now)),
{
    if !task.active || !task.enabled {
        return false;
    }
    due(&task.trigger, last, now)
}

/// A daily (or weekly, or monthly) target fires at most once per day: once
/// it has fired at `fired`, recording that launch makes it not due again at
/// any later moment of the same day.
pub proof fn lemma_target_fires_once_per_day(
    last: Option<LocalTime>,
    fired: LocalTime,
    later: LocalTime,
    h: u32,
    m: u32,
)
    requires
        target_due_spec(last, fired, h, m),
        same_date(fired, later),
    ensures
        !target_due_spec(Some(fired), later, h, m),
{
}

/// A missed time target still fires: once today's `h:m` has come, a task
/// that never ran, or last ran before today's target (say, a manual run
/// earlier in the morning), is due.
pub proof fn lemma_target_due_once_time_has_come(last: Option<LocalTime>, now: LocalTime, h: u32, m: u32)
    requires
        h < 24,
        m < 60,
        !before(now, now.year as int, now.month as int, now.day as int, h as int, m as int),
        match last {
            Some(t) => before(t, now.year as int, now.month as int, now.day as int, h as int, m as int),
            None => true,
        },
    ensures
        target_due_spec(last, now, h, m),
{
}

/// A time target that already ran at or after today's target time is not
/// due again.
pub proof fn lemma_target_not_after_run(t: LocalTime, now: LocalTime, h: u32, m: u32)
    requires
        !before(t, now.year as int, now.month as int, now.day as int, h as int, m as int),
    ensures
        !target_due_spec(Some(t), now, h, m),
{
}

/// A weekly target is due exactly on the listed weekdays when the time
/// target is; a monthly one exactly on its (clamped) day.
pub proof fn lemma_weekly_monthly_days(last: Option<LocalTime>, now: LocalTime, days: Seq<u8>, day: u8, h: u32, m: u32)
    ensures
        weekly_due_spec(last, now, days, h, m) <==> (days.contains(now.weekday_from_sunday as u8)
            && target_due_spec(last, now, h, m)),
        monthly_due_spec(last, now, day, h, m) ==> target_due_spec(last, now, h, m),
        1 <= day <= 28 ==> (monthly_due_spec(last, now, day, h, m) <==> (now.day == day && target_due_spec(
            last,
            now,
            h,
            m,
        ))),
{
    let dim = days_in_month_spec(now.year as int, now.month as int);
    assert(dim >= 28);
}

/// An interval trigger is due again once `every` whole seconds have passed
/// since its last launch.
pub proof fn lemma_interval_due_after(fired: LocalTime, later: LocalTime, every: u64)
    requires
        every <= i64::MAX,
        whole_seconds_between(later, fired) >= every,
    ensures
        interval_due_spec(Some(fired), later, every),
{
}

/// A time target never fires before its time of day.
pub proof fn lemma_target_not_before_time(last: Option<LocalTime>, now: LocalTime, h: u32, m: u32)
    requires
        target_due_spec(last, now, h, m),
    ensures
        !before(now, now.year as int, now.month as int, now.day as int, h as int, m as int),
        h < 24 && m < 60,
{
}

/// An interval trigger fires for a task that never ran, and not again until
/// `every` whole seconds have passed since its launch.
pub proof fn lemma_interval_waits(fired: LocalTime, later: LocalTime, every: u64)
    requires
        1 <= every,
        every <= i64::MAX,
        whole_seconds_between(later, fired) < every,
    ensures
        interval_due_spec(None, fired, every),
        !interval_due_spec(Some(fired), later, every),
{
}

/// The tasks the scheduler launches at `now`, by position; `last[i]` is
/// when task `i` was last launched, if ever.
pub open spec fn due_positions(tasks: Seq<Task>, last: Seq<Option<LocalTime>>, now: LocalTime, n: int) -> Seq<usize>
    decreases n,
{
    if n <= 0 {
        Seq::empty()
    } else {
        let init = due_positions(tasks, last, now, n - 1);
        let t = tasks[n - 1];
        if t.active && t.enabled && trigger_due(t.trigger, last[n - 1], now) {
            init.push((n - 1) as usize)
        } else {
            init
        }
    }
}

/// One tick of the scheduler: which tasks are due now, in list order.
pub fn due_tasks(tasks: &Vec<Task>, last: &Vec<Option<LocalTime>>, now: LocalTime) -> (res: Vec<usize>)
    requires
        last@.len() == tasks@.len(),
    ensures
        res@ == due_positions(tasks@, last@, now, tasks@.len() as int),
{
    let mut out: Vec<usize> = Vec::new();
    let mut i: usize = 0;
    while i < tasks.len()
        invariant
            i <= tasks@.len(),
            last@.len() == tasks@.len(),
            out@ == due_positions(tasks@, last@, now, i as int),
        decreases tasks.len() - i,
    {
        if task_due(&tasks[i], last[i], now) {
            out.push(i);
        }
        i += 1;
    }
    out
}

/// Whether instant `a` comes after instant `b`.
pub open spec fn later(a: LocalTime, b: LocalTime) -> bool {
    a.timestamp > b.timestamp || (a.timestamp == b.timestamp && a.nanosecond > b.nanosecond)
}

/// Last launches as recorded so far: a new start time for a task replaces
/// the recorded one only when it is later.
pub open spec fn record_run(runs: Seq<(Seq<char>, LocalTime)>, id: Seq<char>, t: LocalTime) -> Seq<(Seq<char>, LocalTime)>
    decreases runs.len(),
{
    if runs.len() == 0 {
        seq![(id, t)]
    } else if runs[0].0 == id {
        if later(t, runs[0].1) {
            runs.update(0, (id, t))
        } else {
            runs
        }
    } else {
        seq![runs[0]] + record_run(runs.drop_first(), id, t)
    }
}

pub open spec fn seeded(started: Seq<(String, LocalTime)>) -> Seq<(Seq<char>, LocalTime)>
    decreases started.len(),
{
    if started.len() == 0 {
        Seq::empty()
    } else {
        record_run(seeded(started.drop_last()), started.last().0@, started.last().1)
    }
}

pub open spec fn run_views(v: Seq<(String, LocalTime)>) -> Seq<(Seq<char>, LocalTime)> {
    v.map_values(|p: (String, LocalTime)| (p.0@, p.1))
}

fn record_run_exec(runs: &mut Vec<(String, LocalTime)>, id: &String, t: LocalTime)
    ensures
        run_views(final(runs)@) == record_run(run_views(old(runs)@), id@, t),
{
    let ghost old_v = run_views(runs@);
    let mut i: usize = 0;
    assert(old_v.skip(0) =~= old_v);
    while i < runs.len()
        invariant
            i <= runs@.len(),
            runs@ == old(runs)@,
            old_v == run_views(runs@),
            forall|k: int| 0 <= k < i ==> runs@[k].0@ != id@,
            record_run(old_v, id@, t) == old_v.take(i as int) + record_run(old_v.skip(i as int), id@, t),
        decreases runs.len() - i,
    {
        assert(old_v.skip(i as int)[0] == (runs@[i as int].0@, runs@[i as int].1));
        if text::str_eq(runs[i].0.as_str(), id.as_str()) {
            let cur = runs[i].1;
            if t.timestamp > cur.timestamp || (t.timestamp == cur.timestamp && t.nanosecond > cur.nanosecond) {
                let (key, _) = runs.remove(i);
                runs.insert(i, (key, t));
                assert(run_views(runs@) =~= old_v.take(i as int) + old_v.skip(i as int).update(0, (id@, t)));
            } else {
                assert(old_v =~= old_v.take(i as int) + old_v.skip(i as int));
            }
            return;
        }
        assert(old_v.skip(i as int).drop_first() =~= old_v.skip(i + 1));
        assert(old_v.take(i + 1) =~= old_v.take(i as int) + seq![old_v.skip(i as int)[0]]);
        i += 1;
    }
    runs.push((text::copy_string(id), t));
    assert(run_views(runs@) =~= old_v + seq![(id@, t)]);
    assert(old_v.take(i as int) =~= old_v);
    assert(old_v.skip(i as int) =~= Seq::<(Seq<char>, LocalTime)>::empty());
}

/// The last launch of each task as the execution log records it: for
/// every task id, in order of first appearance, the latest start time.
pub fn seed_last_runs(started: &Vec<(String, LocalTime)>) -> (res: Vec<(String, LocalTime)>)
    ensures
        run_views(res@) == seeded(started@),
{
    let mut runs: Vec<(String, LocalTime)> = Vec::new();
    let mut i: usize = 0;
    assert(run_views(runs@) =~= seeded(started@.take(0)));
    while i < started.len()
        invariant
            i <= started@.len(),
            run_views(runs@) == seeded(started@.take(i as int)),
        decreases started.len() - i,
    {
        assert(started@.take(i + 1).drop_last() =~= started@.take(i as int));
        record_run_exec(&mut runs, &started[i].0, started[i].1);
        i += 1;
    }
    assert(started@.take(started@.len() as int) =~= started@);
    runs
}

} // verus!
