use std::io::Write;
use mosaic::community::{
    build_catalog, check_archive, inspect_archive, check_download_size, parse_source_url, safe_relative,
    safe_slug, same_origin, ArchiveEntry,
};
use mosaic::model::{Lifecycle, PackageRuntime, Permissions, RegistryDocument, RegistryPackage, TaskKind};

#[test]
fn rejects_path_traversal() {
    assert!(safe_relative("../evil.exe", "入口").is_err());
    assert!(safe_relative("/absolute.exe", "入口").is_err());
    assert!(safe_relative("scripts/main.js", "入口").is_ok());
}

#[test]
fn accepts_https_and_loopback_only() {
    assert!(parse_source_url("https://example.com/registry.json").is_ok());
    assert!(parse_source_url("http://127.0.0.1:8317/registry.json").is_ok());
    assert!(parse_source_url("http://example.com/registry.json").is_err());
    assert!(parse_source_url("file:///tmp/registry.json").is_err());
}

#[test]
fn requires_same_origin_packages() {
    let source = parse_source_url("https://plugins.example.com/registry.json").unwrap();
    let package = parse_source_url("https://plugins.example.com/files/a.zip").unwrap();
    let foreign = parse_source_url("https://cdn.example.com/a.zip").unwrap();
    assert!(same_origin(&source, &package));
    assert!(!same_origin(&source, &foreign));
}

#[test]
fn archive_paths_must_stay_inside() {
    let entries = vec![ArchiveEntry { unix_mode: None, size: 4, enclosed_name: None, is_dir: false }];
    assert_eq!(check_archive(&entries).unwrap_err(), "社区包包含越界路径");
}

#[test]
fn archive_limits() {
    let link = vec![ArchiveEntry { unix_mode: Some(0o120777), size: 0, enclosed_name: Some("l".into()), is_dir: false }];
    assert_eq!(check_archive(&link).unwrap_err(), "社区包不能包含符号链接");
    let dup = vec![
        ArchiveEntry { unix_mode: None, size: 1, enclosed_name: Some("A\\b.txt".into()), is_dir: false },
        ArchiveEntry { unix_mode: None, size: 1, enclosed_name: Some("a/B.txt".into()), is_dir: false },
    ];
    assert_eq!(check_archive(&dup).unwrap_err(), "社区包包含重复路径");
    let big = vec![
        ArchiveEntry { unix_mode: None, size: 100 * 1024 * 1024, enclosed_name: Some("a".into()), is_dir: false },
        ArchiveEntry { unix_mode: None, size: 29 * 1024 * 1024, enclosed_name: Some("b".into()), is_dir: false },
    ];
    assert_eq!(check_archive(&big).unwrap_err(), "解包后内容超过 128 MB 限制");
    let ok = vec![ArchiveEntry { unix_mode: Some(0o100644), size: 10, enclosed_name: Some("main.js".into()), is_dir: false }];
    assert!(check_archive(&ok).is_ok());
}

#[test]
fn slugs_and_sizes() {
    assert!(safe_slug("weather-1.0", "包 ID").is_ok());
    assert_eq!(safe_slug("a", "包 ID").unwrap_err(), "包 ID长度必须在 2 到 64 个字符之间");
    assert_eq!(check_download_size(3 * 1024 * 1024, 2 * 1024 * 1024).unwrap_err(), "下载内容超过 2 MB 限制");
    assert!(check_download_size(10, 10).is_ok());
}

fn package(id: &str, name: &str) -> RegistryPackage {
    RegistryPackage {
        id: id.into(),
        name: name.into(),
        version: "1.0.0".into(),
        summary: String::new(),
        description: String::new(),
        author: "someone".into(),
        license: String::new(),
        repository: String::new(),
        homepage: String::new(),
        tags: vec![],
        kind: TaskKind::Script,
        runtime: PackageRuntime::Node,
        entry: "main.js".into(),
        args: vec![],
        lifecycle: Lifecycle::Ephemeral,
        permissions: Permissions { read_paths: vec![], write_paths: vec![], allow_hosts: vec![], channels: vec![] },
        package_url: "https://plugins.example.com/a.zip".into(),
        sha256: "a".repeat(64),
    }
}

#[test]
fn catalog_is_sorted_by_name_ignoring_case() {
    let source = parse_source_url("https://plugins.example.com/registry.json").unwrap();
    let doc = RegistryDocument {
        schema_version: 1,
        name: "r".into(),
        packages: vec![package("zeta", "zeta"), package("alpha", "Alpha"), package("beta", "beta")],
    };
    let fetched = vec![
        ("https://plugins.example.com/registry.json".to_string(), Ok((source, doc))),
        ("https://broken.example.com/r.json".to_string(), Err("下载失败".to_string())),
    ];
    let catalog = build_catalog(fetched, &vec![]);
    let names: Vec<&str> = catalog.items.iter().map(|i| i.package.name.as_str()).collect();
    assert_eq!(names, vec!["Alpha", "beta", "zeta"]);
    assert_eq!(catalog.errors.len(), 1);
    assert_eq!(catalog.errors[0].source_url, "https://broken.example.com/r.json");
    assert_eq!(catalog.items[0].source_url, "https://plugins.example.com/registry.json");
    assert!(catalog.items[0].installed_version.is_none());
}

fn zip_of(names: &[&str]) -> Vec<u8> {
    let mut writer = zip::ZipWriter::new(std::io::Cursor::new(Vec::new()));
    let options = zip::write::SimpleFileOptions::default()
        .compression_method(zip::CompressionMethod::Stored);
    for name in names {
        writer.start_file(*name, options).unwrap();
        writer.write_all(b"nope").unwrap();
    }
    writer.finish().unwrap().into_inner()
}

#[test]
fn rejects_zip_path_traversal() {
    let bytes = zip_of(&["../outside.txt"]);
    assert_eq!(inspect_archive(&bytes).unwrap_err(), "社区包包含越界路径");
}

#[test]
fn archive_entries_are_read_from_the_zip() {
    let entries = inspect_archive(&zip_of(&["main.js", "lib/util.js"])).unwrap();
    assert_eq!(entries.len(), 2);
    assert_eq!(entries[0].enclosed_name.as_deref(), Some("main.js"));
    assert_eq!(entries[1].size, 4);
    assert!(!entries[1].is_dir);
    assert_eq!(inspect_archive(b"not a zip").unwrap_err(), "包不是有效的 ZIP");
    assert_eq!(
        inspect_archive(&zip_of(&["a.txt", "A.TXT"])).unwrap_err(),
        "社区包包含重复路径"
    );
}
