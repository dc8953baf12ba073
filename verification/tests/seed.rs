use mosaic::model::{BotChannel, BotPlatform, BotTargetKind, CommunityConfig, Db, PopoConfig, Task};
use mosaic::seed::{
    builtin_plugins_v3, example_tasks_v1, example_tasks_v2, latest_version, migrate, numeric_version,
    repair_builtin_plugin_locations, strip_verbatim, VersionDir,
};

#[test]
fn compares_scoop_versions_numerically() {
    assert!(numeric_version("7.10.2") > numeric_version("7.2.145"));
    assert_eq!(numeric_version("current"), None);
}

#[test]
fn the_newest_scoop_version_is_launched() {
    let dirs = vec![
        VersionDir { name: "7.2.145".into(), has_executable: true },
        VersionDir { name: "current".into(), has_executable: true },
        VersionDir { name: "7.10.2".into(), has_executable: true },
        VersionDir { name: "8.0.0".into(), has_executable: false },
        VersionDir { name: "beta".into(), has_executable: true },
    ];
    assert_eq!(latest_version(&dirs), Some(2));
    assert_eq!(latest_version(&vec![]), None);
}

#[test]
fn verbatim_prefix_is_dropped() {
    assert_eq!(strip_verbatim(r"\\?\C:\Tools\cli-proxy-api.exe"), r"C:\Tools\cli-proxy-api.exe");
    assert_eq!(strip_verbatim(r"C:\x"), r"C:\x");
}

fn empty_db() -> Db {
    Db {
        tasks: vec![],
        executions: vec![],
        results: vec![],
        notifications: vec![],
        providers: vec![],
        active_provider: None,
        popo: PopoConfig::default_config(),
        bot_channels: vec![],
        community: CommunityConfig { sources: vec![] },
        migrated_v1: false,
        migrated_v2: false,
        migrated_v3: false,
        migrated_v4: false,
        migrated_v5: false,
        migrated_v6: false,
        migrated_v7: false,
    }
}

fn ids(tasks: &[Task]) -> Vec<String> {
    tasks.iter().map(|t| t.id.clone()).collect()
}

#[test]
fn migrations_run_once() {
    let mut db = empty_db();
    db.bot_channels.push(BotChannel {
        id: "old".into(),
        name: "hook".into(),
        platform: BotPlatform::Slack,
        app_id: String::new(),
        enabled: true,
        target_kind: BotTargetKind::Group,
        target: String::new(),
        created_at: String::new(),
    });
    let now = "2026-06-21T10:00:00+08:00";
    migrate(
        &mut db,
        example_tasks_v1(now),
        example_tasks_v2(now),
        builtin_plugins_v3("cli-proxy-api".into(), None, now),
        "/opt/cli/cli-proxy-api".into(),
        Some("/opt/cli".into()),
    );
    assert_eq!(ids(&db.tasks), vec!["example-hn", "example-crypto", "example-weather", "example-quote", "plugin-cliproxyapi"]);
    let plugin = &db.tasks[4];
    assert!(plugin.active && !plugin.enabled);
    assert_eq!(plugin.command, "/opt/cli/cli-proxy-api");
    assert!(!db.bot_channels[0].enabled);
    assert_eq!(db.community.sources.len(), 1);
    let before = ids(&db.tasks);
    migrate(
        &mut db,
        example_tasks_v1(now),
        example_tasks_v2(now),
        builtin_plugins_v3("cli-proxy-api".into(), None, now),
        "/opt/cli/cli-proxy-api".into(),
        Some("/opt/cli".into()),
    );
    assert_eq!(ids(&db.tasks), before);
    assert_eq!(db.tasks[4].command, "/opt/cli/cli-proxy-api");
    assert_eq!(db.community.sources.len(), 1);
}

#[test]
fn customised_plugin_commands_are_kept() {
    let mut tasks = builtin_plugins_v3("D:/my/tool.exe".into(), None, "now");
    assert!(!repair_builtin_plugin_locations(&mut tasks, "C:/x/cli-proxy-api.exe".into(), None));
    let mut tasks = builtin_plugins_v3(r"C:\Users\me\scoop\apps\cliproxyapi\current\cli-proxy-api.exe".into(), None, "now");
    assert!(repair_builtin_plugin_locations(&mut tasks, r"C:\Users\me\scoop\apps\cliproxyapi\7.10.2\cli-proxy-api.exe".into(), Some(r"C:\Users\me\scoop\apps\cliproxyapi\7.10.2".into())));
    assert!(!repair_builtin_plugin_locations(&mut tasks, r"C:\Users\me\scoop\apps\cliproxyapi\7.10.2\cli-proxy-api.exe".into(), Some(r"C:\Users\me\scoop\apps\cliproxyapi\7.10.2".into())));
}
