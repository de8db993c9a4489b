use lockpilot_core::release::{
    channel_name, has_supported_asset, installer_file_name, is_newer_release,
    pick_installer_asset, release_version_desc, release_version_entry, releases_for_channel,
    rollback_releases, tags_match, Arch, GithubAsset, GithubRelease, UpdateChannel,
};

fn asset(name: &str) -> GithubAsset {
    GithubAsset {
        name: name.to_string(),
        browser_download_url: format!("https://example.invalid/{name}"),
    }
}

fn release(tag: &str, draft: bool, prerelease: bool, assets: Vec<GithubAsset>) -> GithubRelease {
    GithubRelease {
        tag_name: tag.to_string(),
        name: None,
        body: None,
        draft,
        prerelease,
        published_at: None,
        assets,
    }
}

#[test]
fn channel_names() {
    assert_eq!(channel_name(&UpdateChannel::Main), "main");
    assert_eq!(channel_name(&UpdateChannel::Dev), "dev");
}

#[test]
fn tags_match_ignores_whitespace_and_v() {
    assert!(tags_match(" v1.0.0 ", "v1.0.0"));
    assert!(tags_match("v1.0.0", "1.0.0"));
    assert!(tags_match("vv2.0", "2.0"));
    assert!(!tags_match("1.0.0", "1.0.1"));
}

#[test]
fn supported_assets_are_installers() {
    assert!(has_supported_asset(&release("v1.0.0", false, false, vec![asset("Setup-X64.MSI")])));
    assert!(has_supported_asset(&release("v1.0.0", false, false, vec![
        asset("readme.txt"),
        asset("App.exe")
    ])));
    assert!(!has_supported_asset(&release("v1.0.0", false, false, vec![asset("readme.txt")])));
    assert!(!has_supported_asset(&release("v1.0.0", false, false, vec![])));
}

#[test]
fn qualifying_releases_are_filtered() {
    let input = vec![
        release("v1.0.0", false, false, vec![asset("a.msi")]),
        release("v1.1.0", true, false, vec![asset("a.msi")]),
        release("not-a-version", false, false, vec![asset("a.msi")]),
        release("v1.2.0", false, true, vec![asset("a.msi")]),
        release("v1.3.0", false, false, vec![asset("notes.txt")]),
    ];
    let kept = rollback_releases(input);
    let tags: Vec<&str> = kept.iter().map(|r| r.tag_name.as_str()).collect();
    assert_eq!(tags, vec!["v1.0.0", "v1.2.0"]);
}

#[test]
fn channels_split_on_prerelease() {
    let input = vec![
        release("v1.0.0", false, false, vec![asset("a.msi")]),
        release("v1.1.0-dev.1", false, true, vec![asset("a.msi")]),
    ];
    let main = releases_for_channel(
        input.iter().map(|r| release(r.tag_name.as_str(), r.draft, r.prerelease, vec![asset("a.msi")])).collect(),
        &UpdateChannel::Main,
    );
    assert_eq!(main.len(), 1);
    assert_eq!(main[0].tag_name, "v1.0.0");
    let dev = releases_for_channel(input, &UpdateChannel::Dev);
    assert_eq!(dev.len(), 1);
    assert_eq!(dev[0].tag_name, "v1.1.0-dev.1");
}

#[test]
fn version_ordering_is_numeric() {
    let a = release("v1.2.3", false, false, vec![]);
    let b = release("v1.10.0", false, false, vec![]);
    // descending: the larger version comes first
    assert_eq!(release_version_desc(&b, &a), std::cmp::Ordering::Less);
    assert_eq!(release_version_desc(&a, &b), std::cmp::Ordering::Greater);
    let mut all = vec![
        release("v1.2.3", false, false, vec![]),
        release("v1.10.0", false, false, vec![]),
        release("v0.9.9", false, false, vec![]),
    ];
    all.sort_by(release_version_desc);
    let tags: Vec<&str> = all.iter().map(|r| r.tag_name.as_str()).collect();
    assert_eq!(tags, vec!["v1.10.0", "v1.2.3", "v0.9.9"]);
}

#[test]
fn update_detection_follows_semver_and_channel() {
    assert!(is_newer_release("v1.1.0", "v1.0.0", &UpdateChannel::Main));
    assert!(!is_newer_release("v1.0.0", "v1.0.0", &UpdateChannel::Main));
    assert!(!is_newer_release("v0.9.0", "v1.0.0", &UpdateChannel::Main));
    assert!(!is_newer_release("junk", "v1.0.0", &UpdateChannel::Main));
    // semver orders 1.0.0-dev.1 below 1.0.0; the dev channel still offers it
    assert!(is_newer_release("v1.0.0-dev.1", "v1.0.0", &UpdateChannel::Dev));
    assert!(!is_newer_release("v1.0.0-dev.1", "v1.0.0", &UpdateChannel::Main));
    assert!(!is_newer_release("v1.0.0-dev.1", "v1.0.0-dev.2", &UpdateChannel::Dev));
}

#[test]
fn installer_asset_prefers_architecture() {
    let assets = vec![asset("notes.txt"), asset("App-Setup.msi"), asset("App-x64.exe")];
    let picked = pick_installer_asset(&assets, &Arch::X86_64).unwrap();
    assert_eq!(picked.name, "App-x64.exe");
    let picked = pick_installer_asset(&assets, &Arch::Aarch64).unwrap();
    assert_eq!(picked.name, "App-Setup.msi");
    let picked = pick_installer_asset(&assets, &Arch::Other).unwrap();
    assert_eq!(picked.name, "App-Setup.msi");
    assert!(pick_installer_asset(&vec![asset("notes.txt")], &Arch::X86_64).is_none());
}

#[test]
fn release_entries_fall_back_to_the_tag() {
    let mut r = release("v1.0.0", false, false, vec![]);
    let entry = release_version_entry(&r);
    assert_eq!(entry.tag, "v1.0.0");
    assert_eq!(entry.name, "v1.0.0");
    assert!(entry.published_at.is_none());
    r.name = Some("First stable".to_string());
    r.published_at = Some("2030-01-01T00:00:00Z".to_string());
    let entry = release_version_entry(&r);
    assert_eq!(entry.name, "First stable");
    assert_eq!(entry.published_at.as_deref(), Some("2030-01-01T00:00:00Z"));
}

#[test]
fn installer_files_keep_tag_and_extension() {
    assert_eq!(installer_file_name("v1.0.0", "Setup.msi"), "LockPilot-v1.0.0.msi");
    assert_eq!(installer_file_name("feat/x", "App.EXE"), "LockPilot-feat-x.EXE");
    assert_eq!(installer_file_name("v2", "Setup"), "LockPilot-v2.exe");
}
