use mosaic::library::{
    check_deletable, compose_brief, prepare_task, remove_task, set_active, set_dashboard,
    set_enabled, set_module_span, snapshot_executions, store_task,
};
use mosaic::model::{
    CommunityTaskSource, DetailItem, DisplayForm, ExecStatus, Execution, Lifecycle, PackageRuntime,
    Summary, Task, TaskKind, TaskResultState, Trigger,
};

fn task(id: &str, active: bool, enabled: bool) -> Task {
    Task {
        id: id.into(),
        nickname: format!("task {id}"),
        command: "node".into(),
        kind: TaskKind::Script,
        args: vec![],
        cwd: None,
        trigger: Trigger::Manual,
        display: DisplayForm::Card,
        lifecycle: Lifecycle::Ephemeral,
        active,
        enabled,
        timeout_secs: 60,
        push_channel: None,
        on_dashboard: true,
        order: 0,
        col_span: 1,
        row_span: 1,
        output_dir: None,
        stdin: None,
        community: None,
        created_at: String::new(),
    }
}

#[test]
fn dashboard_shows_listed_active_tasks_in_order() {
    let mut tasks = vec![task("a", true, true), task("b", true, true), task("c", false, false), task("d", true, true)];
    set_dashboard(&mut tasks, &vec!["d".into(), "c".into(), "a".into(), "d".into()]);
    assert!(tasks[0].on_dashboard && tasks[0].order == 2);
    assert!(!tasks[1].on_dashboard);
    assert!(!tasks[2].on_dashboard);
    assert!(tasks[3].on_dashboard && tasks[3].order == 0);
}

#[test]
fn module_spans_are_clamped() {
    let mut tasks = vec![task("a", true, true)];
    set_module_span(&mut tasks, "a", 9, 0);
    assert_eq!((tasks[0].col_span, tasks[0].row_span), (3, 1));
}

#[test]
fn saving_replaces_and_prepares() {
    let mut t = task("", false, true);
    t.created_at = String::new();
    let t = prepare_task(t, "new-id".into(), "2026-06-21T10:00:00+08:00".into());
    assert_eq!(t.id, "new-id");
    assert!(!t.enabled && !t.on_dashboard);
    let mut tasks = vec![task("new-id", true, true), task("x", true, true)];
    store_task(&mut tasks, t);
    assert_eq!(tasks.len(), 2);
    assert_eq!(tasks[0].id, "x");
    assert_eq!(tasks[1].id, "new-id");
    remove_task(&mut tasks, "x");
    assert_eq!(tasks.len(), 1);
}

#[test]
fn community_tasks_are_removed_elsewhere() {
    let mut t = task("community:x", true, false);
    t.community = Some(CommunityTaskSource {
        package_id: "x".into(),
        version: "1".into(),
        registry_url: "https://e.com/r.json".into(),
        package_dir: "/p".into(),
        sha256: "a".repeat(64),
        author: "me".into(),
        runtime: PackageRuntime::Node,
        risk: "low".into(),
    });
    let tasks = vec![t, task("y", true, true)];
    assert!(check_deletable(&tasks, "community:x").is_err());
    assert!(check_deletable(&tasks, "y").is_ok());
    assert!(check_deletable(&tasks, "missing").is_ok());
}

#[test]
fn switches() {
    let mut tasks = vec![task("a", true, true), task("b", false, false)];
    set_active(&mut tasks, "a", false);
    assert!(!tasks[0].active && !tasks[0].enabled && !tasks[0].on_dashboard);
    assert_eq!(set_enabled(&mut tasks, "b", true), None);
    assert!(!tasks[1].enabled);
    set_active(&mut tasks, "b", true);
    assert_eq!(set_enabled(&mut tasks, "b", true), Some(1));
    assert!(tasks[1].enabled);
}

fn exec(started: &str, status: ExecStatus) -> Execution {
    Execution {
        id: "e".into(),
        task_id: "a".into(),
        nickname: "n".into(),
        started_at: started.into(),
        finished_at: None,
        status,
        exit_code: None,
        trigger: "定时".into(),
        error: None,
        item_count: 1,
        items: vec![DetailItem { id: None, title: "x".into(), subtitle: None, at: None, kind: None, path: None }],
    }
}

#[test]
fn daily_brief_counts_and_summarises() {
    let tasks = vec![task("a", true, true), task("b", true, false)];
    let executions = vec![
        exec("2026-06-21T09:00:00+08:00", ExecStatus::Success),
        exec("2026-06-20T09:00:00+08:00", ExecStatus::Failed),
        exec("2026-06-21T10:00:00+08:00", ExecStatus::TimedOut),
    ];
    let results = vec![(
        "a".to_string(),
        TaskResultState {
            summary: Some(Summary { headline: "3 条热门".into(), count: Some(3), note: None }),
            card: None,
            timeline: vec![],
            updated_at: Some("T".into()),
            cursor: None,
        },
    )];
    let brief = compose_brief(&tasks, &executions, &results, "2026-06-21");
    assert_eq!(brief.headline, "早安。今天有 1 个任务在跑，有 2 次失败需要你看一眼。");
    assert_eq!(brief.sections.len(), 3);
    assert_eq!(brief.sections[0].detail, "1 个启用 · 今日已运行 2 次");
    assert_eq!(brief.sections[1].title, "3 条热门");
    assert_eq!(brief.sections[1].detail, "task a · T");
    assert_eq!(brief.sections[2].detail, "有 2 次运行失败");
    let calm = compose_brief(&tasks, &vec![], &vec![], "2026-06-21");
    assert_eq!(calm.headline, "早安。一切平稳，1 个任务在为你运行。");
    assert_eq!(calm.sections.len(), 1);
}

#[test]
fn snapshot_strips_products() {
    let executions: Vec<Execution> = (0..70).map(|_| exec("x", ExecStatus::Success)).collect();
    let snap = snapshot_executions(&executions);
    assert_eq!(snap.len(), 60);
    assert!(snap.iter().all(|e| e.items.is_empty() && e.item_count == 1));
}
