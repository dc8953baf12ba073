use chrono::{DateTime, Datelike, Local, TimeZone, Timelike};
use mosaic::model::{Task, Trigger};
use mosaic::scheduler::{
    daily_due, due_tasks, interval_due, monthly_due, parse_hhmm, seed_last_runs, weekly_due,
    LocalTime,
};

fn local(t: DateTime<Local>) -> LocalTime {
    LocalTime {
        year: t.year(),
        month: t.month(),
        day: t.day(),
        hour: t.hour(),
        minute: t.minute(),
        second: t.second(),
        nanosecond: t.nanosecond(),
        weekday_from_sunday: t.weekday().num_days_from_sunday(),
        timestamp: t.timestamp(),
    }
}

fn at(h: u32, m: u32, s: u32) -> LocalTime {
    local(Local.with_ymd_and_hms(2026, 6, 21, h, m, s).unwrap())
}

#[test]
fn hhmm_parsing() {
    assert_eq!(parse_hhmm("09:00"), Some((9, 0)));
    assert_eq!(parse_hhmm("23:59"), Some((23, 59)));
    assert_eq!(parse_hhmm("24:00"), None);
    assert_eq!(parse_hhmm("bad"), None);
}

#[test]
fn interval_fires_first_time_then_waits() {
    let now = at(10, 0, 0);
    assert!(interval_due(None, now, 60));
    assert!(!interval_due(Some(at(9, 59, 30)), now, 60));
    assert!(interval_due(Some(at(9, 59, 0)), now, 60));
}

#[test]
fn daily_fires_after_target_once_per_day() {
    assert!(!daily_due(None, at(8, 0, 0), 9, 0));
    assert!(daily_due(None, at(9, 30, 0), 9, 0));
    assert!(!daily_due(Some(at(9, 0, 5)), at(9, 30, 0), 9, 0));
    let yesterday = local(Local.with_ymd_and_hms(2026, 6, 20, 9, 0, 0).unwrap());
    assert!(daily_due(Some(yesterday), at(9, 30, 0), 9, 0));
}

#[test]
fn weekly_runs_on_matching_weekday() {
    let now = at(10, 0, 0);
    let wd = now.weekday_from_sunday as u8;
    assert!(weekly_due(None, now, &vec![wd], 9, 0));
    assert!(!weekly_due(None, now, &vec![(wd + 1) % 7], 9, 0));
    assert!(!weekly_due(None, at(8, 0, 0), &vec![wd], 9, 0));
}

#[test]
fn monthly_runs_on_day_and_clamps_to_month_end() {
    assert!(monthly_due(None, at(10, 0, 0), 21, 9, 0));
    assert!(!monthly_due(None, at(10, 0, 0), 20, 9, 0));
    let jun30 = local(Local.with_ymd_and_hms(2026, 6, 30, 10, 0, 0).unwrap());
    assert!(monthly_due(None, jun30, 31, 9, 0));
}

fn task(id: &str, trigger: Trigger, active: bool, enabled: bool) -> Task {
    Task {
        id: id.into(),
        nickname: id.into(),
        command: "node".into(),
        kind: mosaic::model::TaskKind::Script,
        args: vec![],
        cwd: None,
        trigger,
        display: mosaic::model::DisplayForm::Card,
        lifecycle: mosaic::model::Lifecycle::Ephemeral,
        active,
        enabled,
        timeout_secs: 60,
        push_channel: None,
        on_dashboard: false,
        order: 0,
        col_span: 1,
        row_span: 1,
        output_dir: None,
        stdin: None,
        community: None,
        created_at: String::new(),
    }
}

#[test]
fn only_switched_on_library_tasks_are_scheduled() {
    let tasks = vec![
        task("a", Trigger::Interval { every_secs: 60 }, true, true),
        task("b", Trigger::Interval { every_secs: 60 }, true, false),
        task("c", Trigger::Interval { every_secs: 60 }, false, true),
        task("d", Trigger::Manual, true, true),
        task("e", Trigger::Daily { at: "09:00".into() }, true, true),
    ];
    let last = vec![None, None, None, None, None];
    assert_eq!(due_tasks(&tasks, &last, at(10, 0, 0)), vec![0, 4]);
}

#[test]
fn interval_zero_means_every_second() {
    let tasks = vec![task("a", Trigger::Interval { every_secs: 0 }, true, true)];
    assert_eq!(due_tasks(&tasks, &vec![Some(at(9, 59, 59))], at(10, 0, 0)), vec![0]);
    assert!(due_tasks(&tasks, &vec![Some(at(10, 0, 0))], at(10, 0, 0)).is_empty());
}

#[test]
fn last_runs_keep_the_latest_start() {
    let started = vec![
        ("a".to_string(), at(9, 0, 0)),
        ("b".to_string(), at(8, 0, 0)),
        ("a".to_string(), at(10, 0, 0)),
        ("a".to_string(), at(7, 0, 0)),
    ];
    let runs = seed_last_runs(&started);
    assert_eq!(runs.len(), 2);
    assert_eq!(runs[0].0, "a");
    assert_eq!(runs[0].1.hour, 10);
    assert_eq!(runs[1].0, "b");
}
