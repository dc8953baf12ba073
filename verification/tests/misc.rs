use mosaic::autostart;
use mosaic::entry::{find_script_entry, inspect_target, slugify, ProjectFacts, Target};
use mosaic::locale;
use mosaic::locale::{init_from_timezone, locale_for_utc_offset, text, LocaleSetting};
use mosaic::network::{proxy_url, DEFAULT_DOWNLOAD_PROXY};
use mosaic::notifications::{clear_notifications, delete_notification, mark_read, push_notification};
use mosaic::model::Notification;
use mosaic::popo::{arrange_peers, peer_from_reply, popo_error, scan_hosts, upload_request, upload_url};
use mosaic::runner::{json_get, json_str_at};
use mosaic::model::PopoPeer;

#[test]
fn only_utc_eight_defaults_to_chinese() {
    assert_eq!(locale_for_utc_offset(8 * 60 * 60), "zh-CN");
    assert_eq!(locale_for_utc_offset(0), "en");
    assert_eq!(locale_for_utc_offset(-5 * 60 * 60), "en");
    assert_eq!(locale_for_utc_offset(9 * 60 * 60), "en");
}

#[test]
fn default_download_proxy_is_loopback_port_61193() {
    assert_eq!(DEFAULT_DOWNLOAD_PROXY, "http://127.0.0.1:61193");
}

#[test]
fn blank_proxy_settings_fall_back() {
    assert_eq!(proxy_url(None), "http://127.0.0.1:61193");
    assert_eq!(proxy_url(Some("  ".into())), "http://127.0.0.1:61193");
    assert_eq!(proxy_url(Some("http://proxy:8080".into())), "http://proxy:8080");
}

#[test]
fn language_switching() {
    let mut setting = init_from_timezone(8 * 3600);
    assert!(setting.chinese);
    assert_eq!(text(&setting, "Hi", "你好"), "你好");
    assert!(locale::set(&mut setting, "en").is_ok());
    assert!(!setting.chinese);
    assert_eq!(locale::set(&mut setting, "fr").unwrap_err(), "Unsupported locale");
    assert!(!setting.chinese);
    let en = LocaleSetting { chinese: false };
    assert_eq!(
        autostart::startup_error(&en, autostart::StartupFailure::Enable, "denied"),
        "Unable to enable startup: denied"
    );
}

#[test]
fn startup_entries() {
    assert!(!autostart::is_enabled(&None));
    assert!(!autostart::is_enabled(&Some("  ".into())));
    assert!(autostart::is_enabled(&Some("\"C:\\M.exe\"".into())));
    assert_eq!(autostart::startup_command(r"C:\Program Files\Mosaic\Mosaic.exe"), r#""C:\Program Files\Mosaic\Mosaic.exe""#);
    assert!(autostart::set_enabled(false).is_ok());
    assert!(autostart::set_enabled(true).is_err());
}

fn note(id: &str, read: bool) -> Notification {
    Notification { id: id.into(), level: "info".into(), title: "t".into(), body: None, at: "now".into(), read, task_id: None }
}

#[test]
fn notification_centre() {
    let mut list: Vec<Notification> = Vec::new();
    for i in 0..105 {
        push_notification(&mut list, note(&format!("n{i}"), false));
    }
    assert_eq!(list.len(), 100);
    assert_eq!(list[0].id, "n104");
    mark_read(&mut list, "n104");
    assert!(list[0].read);
    delete_notification(&mut list, "n103");
    assert_eq!(list.len(), 99);
    clear_notifications(&mut list, true);
    assert_eq!(list.len(), 98);
    clear_notifications(&mut list, false);
    assert!(list.is_empty());
}

#[test]
fn script_entries_prefer_launchers() {
    let files = vec!["/p/helper.ps1".to_string(), "/p/Fetch-Data.ps1".to_string(), "/p/go.bat".to_string()];
    let (command, args, note) = find_script_entry(&files, true).unwrap();
    assert_eq!(command, "powershell");
    assert_eq!(args.last().unwrap(), "/p/Fetch-Data.ps1");
    assert_eq!(note, "PowerShell 脚本");
    let only_bat = vec!["/p/go.BAT".to_string()];
    assert!(find_script_entry(&only_bat, true).is_none());
    assert_eq!(find_script_entry(&only_bat, false).unwrap().0, "/p/go.BAT");
}

fn facts() -> ProjectFacts {
    ProjectFacts {
        path: "/home/me/proj".into(),
        output_dir: String::new(),
        files: vec![],
        has_package_json: false,
        has_pnpm_lock: false,
        has_yarn_lock: false,
        has_start_script: false,
        has_main_py: false,
        has_app_py: false,
        has_pyproject: false,
        venv_python: None,
        has_cargo_toml: false,
    }
}

#[test]
fn projects_are_recognised() {
    let mut f = facts();
    f.has_package_json = true;
    f.has_yarn_lock = true;
    let g = inspect_target(&Target::Dir(f)).unwrap();
    assert_eq!((g.kind.as_str(), g.command.as_str()), ("node-project", "yarn"));
    assert_eq!(g.args, vec!["run", "dev"]);
    assert_eq!(g.note, "Node 项目（yarn）");
    assert_eq!(g.nickname, "proj");
    let mut f = facts();
    f.has_app_py = true;
    let g = inspect_target(&Target::Dir(f)).unwrap();
    assert_eq!((g.command.as_str(), g.args.clone()), ("python", vec!["app.py".to_string()]));
    assert!(inspect_target(&Target::Dir(facts())).is_err());
    assert_eq!(inspect_target(&Target::Missing).unwrap_err(), "路径不存在");
    let g = inspect_target(&Target::File { path: "/s/job.TS".into(), parent: Some("/s".into()), output_dir: String::new() }).unwrap();
    assert_eq!(g.command, "npx");
    assert_eq!(g.args, vec!["tsx", "/s/job.TS"]);
    assert_eq!(g.note, ".ts 脚本");
    assert_eq!(g.nickname, "job");
    assert_eq!(
        inspect_target(&Target::File { path: "/s/a.xyz".into(), parent: None, output_dir: String::new() }).unwrap_err(),
        "不认识的脚本类型：.xyz"
    );
}

#[test]
fn folder_names_are_english_safe() {
    assert_eq!(slugify("  My Cool--Script!! ", "0123456789abcdef"), "my-cool-script");
    assert_eq!(slugify("采集", "0123456789abcdef"), "script-01234567");
    assert_eq!(slugify("a_b", "0123456789abcdef"), "a_b");
}

#[test]
fn popo_peers() {
    let hosts = scan_hosts(7);
    assert_eq!(hosts.len(), 253);
    assert!(!hosts.contains(&7) && hosts.contains(&1) && hosts.contains(&254));
    assert!(peer_from_reply("10.0.0.2".into(), None, Some("fp".into()), None, "me").is_none());
    assert!(peer_from_reply("10.0.0.2".into(), Some("A".into()), Some("me".into()), None, "me").is_none());
    let p = peer_from_reply("10.0.0.2".into(), Some("A".into()), None, Some("fp".into()), "me").unwrap();
    assert_eq!((p.port, p.fingerprint.as_str()), (53317, "fp"));
    let peer = |ip: &str, fp: &str| PopoPeer { ip: ip.into(), port: 53317, alias: ip.into(), fingerprint: fp.into() };
    let arranged = arrange_peers(vec![peer("10.0.0.9", "x"), peer("10.0.0.10", "y"), peer("10.0.0.11", "y"), peer("10.0.0.2", "z")]);
    let ips: Vec<&str> = arranged.iter().map(|p| p.ip.as_str()).collect();
    assert_eq!(ips, vec!["10.0.0.10", "10.0.0.2", "10.0.0.9"]);
    assert_eq!(upload_url("http://h:1/api", "s", "t"), "http://h:1/api/upload?sessionId=s&fileId=file-1&token=t");
    assert_eq!(popo_error(Some(403), ""), "PoPo 返回 403（在 PoPo 里确认允许接收）");
}

#[test]
fn upload_request_describes_the_file_by_its_digest() {
    let body = upload_request("Mosaic", "fp-1", "note.txt", b"abc");
    let files = json_get(&body, "files").unwrap();
    let file = json_get(files, "file-1").unwrap();
    assert_eq!(json_str_at(file, "fileName").as_deref(), Some("note.txt"));
    assert_eq!(
        json_str_at(file, "sha256").as_deref(),
        Some("ba7816bf8f01cfea414140de5dae2223b00361a396177a9cb410ff61f20015ad")
    );
    match json_get(file, "size") {
        Some(mosaic::model::Json::Number(n)) => assert_eq!(n, "3"),
        other => panic!("unexpected size {:?}", other),
    }
    let info = json_get(&body, "info").unwrap();
    assert_eq!(json_str_at(info, "token").as_deref(), Some("fp-1"));
}

#[test]
fn database_lives_in_the_data_directory() {
    assert_eq!(mosaic::store::db_path("/data/mosaic"), "/data/mosaic/db.json");
    assert_eq!(mosaic::store::db_path("/data/mosaic/"), "/data/mosaic/db.json");
}

#[test]
fn run_environment_names_the_state_directory_first() {
    let dir = mosaic::runner::task_state_dir("/data/mosaic", "t1");
    assert_eq!(dir, "/data/mosaic/state/t1");
    let env = mosaic::runner::task_env(&dir, "t1", &Some("2024-01-01".into()), &None);
    assert_eq!(
        env,
        vec![
            ("MOSAIC_TASK_DIR".to_string(), "/data/mosaic/state/t1".to_string()),
            ("MOSAIC_TASK_ID".to_string(), "t1".to_string()),
            ("MOSAIC_LAST_RUN".to_string(), "2024-01-01".to_string()),
        ]
    );
}

#[test]
fn missing_robot_secret_is_reported() {
    assert_eq!(mosaic::channels::required_secret(Some("s".into())).unwrap(), "s");
    assert_eq!(
        mosaic::channels::required_secret(None).unwrap_err(),
        "QQ AppSecret 缺失，请重新编辑保存"
    );
}

#[test]
fn a_proxy_ureq_refuses_falls_back_to_the_default() {
    assert_eq!(mosaic::network::download_proxy(Some("http://proxy:8080".into())), "http://proxy:8080");
    assert_eq!(mosaic::network::download_proxy(Some("ftp://proxy:8080".into())), DEFAULT_DOWNLOAD_PROXY);
    assert_eq!(mosaic::network::download_proxy(None), DEFAULT_DOWNLOAD_PROXY);
}
