use mosaic::update::{
    select_release, ReleaseAsset,
    check_final_url, check_installer, checksum_from_body, compare_versions, is_sha256, parse_release_checksum,
    pending_action, pending_action_for,
    safe_version_component, validate_github_release_asset_url, validate_github_release_url,
    PendingAction,
};

#[test]
fn version_comparison_is_loose_and_never_downgrades() {
    assert_eq!(compare_versions("1.0", "1.0.0"), 0);
    assert_eq!(compare_versions("0.3.0", "0.3.1"), -1);
    assert_eq!(compare_versions("2.0.0", "1.9.9"), 1);
}

#[test]
fn only_the_official_github_release_path_is_accepted() {
    assert!(validate_github_release_url(
        "https://github.com/Quill-00/mosaic-desktop-automation/releases/download/v0.3.0/Mosaic-Setup-0.3.0.exe"
    )
    .is_ok());
    assert!(validate_github_release_url(
        "http://github.com/Quill-00/mosaic-desktop-automation/releases/download/v1/a.exe"
    )
    .is_err());
    assert!(validate_github_release_url("https://example.com/Mosaic.exe").is_err());
    assert!(validate_github_release_url(
        "https://github.com/other/repo/releases/download/v1/a.exe"
    )
    .is_err());
}

#[test]
fn checksum_must_be_complete_hex() {
    assert!(is_sha256(&"a".repeat(64)));
    assert!(!is_sha256(&"g".repeat(64)));
    assert!(!is_sha256(&"a".repeat(63)));
}

#[test]
fn release_checksum_requires_the_exact_installer_name() {
    let hash = "a".repeat(64);
    assert_eq!(
        parse_release_checksum(
            &format!("{hash}  Mosaic-Setup-0.3.1.exe\n"),
            "Mosaic-Setup-0.3.1.exe"
        )
        .unwrap(),
        hash
    );
    assert!(parse_release_checksum(
        &format!("{}  another.exe\n", "a".repeat(64)),
        "Mosaic-Setup-0.3.1.exe"
    )
    .is_err());
}

#[test]
fn release_assets_must_match_the_exact_tag_and_name() {
    assert!(validate_github_release_asset_url(
        "https://github.com/Quill-00/mosaic-desktop-automation/releases/download/v0.3.1/Mosaic-Setup-0.3.1.exe",
        "v0.3.1",
        "Mosaic-Setup-0.3.1.exe"
    )
    .is_ok());
    assert!(validate_github_release_asset_url(
        "https://github.com/Quill-00/mosaic-desktop-automation/releases/download/v0.3.0/Mosaic-Setup-0.3.1.exe",
        "v0.3.1",
        "Mosaic-Setup-0.3.1.exe"
    )
    .is_err());
}

#[test]
fn version_order_is_antisymmetric_on_examples() {
    for (a, b) in [("1.2", "1.10"), ("v1.0.0", "1.0"), ("0.0.1", "0.0.1-beta")] {
        assert_eq!(compare_versions(a, b), -compare_versions(b, a));
    }
    assert_eq!(compare_versions("1.2", "1.10"), -1);
}

#[test]
fn checksum_file_must_come_over_https_and_be_small_utf8() {
    let body = format!("{}  Mosaic-Setup-0.3.1.exe\n", "b".repeat(64)).into_bytes();
    assert_eq!(
        checksum_from_body("https://objects.githubusercontent.com/x", &body, "Mosaic-Setup-0.3.1.exe").unwrap(),
        "b".repeat(64)
    );
    assert_eq!(
        checksum_from_body("http://objects.githubusercontent.com/x", &body, "Mosaic-Setup-0.3.1.exe").unwrap_err(),
        "GitHub 校验文件被重定向到非 HTTPS 地址"
    );
    assert_eq!(
        checksum_from_body("https://objects.githubusercontent.com/x", &vec![b'a'; 4097], "x.exe").unwrap_err(),
        "GitHub 校验文件过大"
    );
    assert_eq!(
        checksum_from_body("https://objects.githubusercontent.com/x", &vec![0xff, 0xfe], "x.exe").unwrap_err(),
        "GitHub 校验文件不是 UTF-8"
    );
}

#[test]
fn staged_installer_runs_only_when_newer_and_intact() {
    let sha = "c".repeat(64);
    assert_eq!(pending_action("0.3.1", "0.3.1", &Some(sha.clone()), &sha), PendingAction::DiscardManifest);
    assert_eq!(pending_action("0.3.0", "0.3.1", &Some(sha.clone()), &sha), PendingAction::Launch);
    assert_eq!(pending_action("0.3.0", "0.3.1", &None, &sha), PendingAction::DiscardAll);
}

#[test]
fn version_directory_names_are_sanitised() {
    assert_eq!(safe_version_component("v1.2.3"), "v1.2.3");
    assert_eq!(safe_version_component("../../x"), "....x");
    assert_eq!(safe_version_component("///"), "unknown");
}

const ABC_SHA256: &str = "ba7816bf8f01cfea414140de5dae2223b00361a396177a9cb410ff61f20015ad";

#[test]
fn installer_bytes_are_checked_by_their_digest() {
    assert!(check_installer(Some(3), b"abc", ABC_SHA256).is_ok());
    assert!(check_installer(None, b"abc", ABC_SHA256).is_ok());
    assert_eq!(check_installer(Some(4), b"abc", ABC_SHA256).unwrap_err(), "GitHub 安装包下载不完整");
    assert_eq!(check_installer(Some(3), b"abd", ABC_SHA256).unwrap_err(), "GitHub 安装包 SHA-256 校验失败");
}

#[test]
fn staged_installer_launches_only_when_its_bytes_match() {
    let good = Some(b"abc".to_vec());
    let bad = Some(b"abd".to_vec());
    assert_eq!(pending_action_for("0.3.0", "0.3.1", &good, ABC_SHA256), PendingAction::Launch);
    assert_eq!(pending_action_for("0.3.0", "0.3.1", &bad, ABC_SHA256), PendingAction::DiscardAll);
    assert_eq!(pending_action_for("0.3.0", "0.3.1", &None, ABC_SHA256), PendingAction::DiscardAll);
    assert_eq!(pending_action_for("0.3.1", "0.3.1", &good, ABC_SHA256), PendingAction::DiscardManifest);
}

const RELEASES: &str = "https://github.com/Quill-00/mosaic-desktop-automation/releases/download/";

#[test]
fn checksum_asset_url_is_accepted_by_its_exact_name() {
    let url = format!("{RELEASES}v0.3.1/Mosaic-Setup-0.3.1.exe.sha256");
    assert!(validate_github_release_asset_url(&url, "v0.3.1", "Mosaic-Setup-0.3.1.exe.sha256").is_ok());
    assert!(validate_github_release_asset_url(&url, "v0.3.1", "Mosaic-Setup-0.3.1.exe").is_err());
}

#[test]
fn newer_release_with_both_assets_is_selected() {
    let assets = vec![
        ReleaseAsset {
            name: "Mosaic-Setup-0.3.1.exe".into(),
            browser_download_url: format!("{RELEASES}v0.3.1/Mosaic-Setup-0.3.1.exe"),
        },
        ReleaseAsset {
            name: "Mosaic-Setup-0.3.1.exe.sha256".into(),
            browser_download_url: format!("{RELEASES}v0.3.1/Mosaic-Setup-0.3.1.exe.sha256"),
        },
    ];
    let c = select_release("v0.3.1", &assets, "0.3.0").unwrap().unwrap();
    assert_eq!(c.version, "0.3.1");
    assert_eq!(c.installer_name, "Mosaic-Setup-0.3.1.exe");
    assert_eq!(c.checksum_url, format!("{RELEASES}v0.3.1/Mosaic-Setup-0.3.1.exe.sha256"));
    assert!(select_release("v0.3.0", &assets, "0.3.0").unwrap().is_none());
    assert!(select_release("v0.3.1", &assets[..1].to_vec(), "0.3.0").is_err());
}

#[test]
fn version_order_reads_numbers_and_drops_prerelease_suffix() {
    assert_eq!(compare_versions("0.10.0", "0.9.0"), 1);
    assert_eq!(compare_versions("0.9.0", "0.10.0"), -1);
    assert_eq!(compare_versions("v1.2.3-beta", "1.2.3"), 0);
}

#[test]
fn final_download_url_must_parse_and_be_https() {
    assert!(check_final_url("https://objects.githubusercontent.com/a", "bad", "plain").is_ok());
    assert_eq!(check_final_url("http://objects.githubusercontent.com/a", "bad", "plain").unwrap_err(), "plain");
    assert_eq!(check_final_url("not a url", "bad", "plain").unwrap_err(), "bad");
    let body = b"0000000000000000000000000000000000000000000000000000000000000000  x.exe".to_vec();
    assert_eq!(checksum_from_body("::", &body, "x.exe").unwrap_err(), "GitHub 校验文件重定向地址无效");
}
