use cue_shell::upgrade::{
    check_platform, find_binary_in_dir, is_archive, plan_upgrade, release_asset_download_url,
    release_asset_version_from_tag, select_release_asset, DirItem, DirLeaf, GithubAsset,
    GithubRelease, UpgradePlan,
};

fn asset(name: &str, url: &str) -> GithubAsset {
    GithubAsset { name: name.into(), browser_download_url: url.into() }
}

#[test]
fn release_asset_version_accepts_optional_v_prefix() {
    assert_eq!(release_asset_version_from_tag("v1.2.3").expect("v-prefixed tag"), "1.2.3");
    assert_eq!(release_asset_version_from_tag("1.2.3").expect("bare version tag"), "1.2.3");
}

#[test]
fn release_asset_version_rejects_malformed_tags() {
    for (tag, expected) in [
        ("", "must not be empty"),
        (" v1.2.3", "leading or trailing whitespace"),
        ("v1.2.3 ", "leading or trailing whitespace"),
        ("v", "does not contain a version"),
        ("v1.2.3/macos", "must not contain path separators"),
        ("v1.2.3\\macos", "must not contain path separators"),
    ] {
        let error = release_asset_version_from_tag(tag).expect_err("malformed tag should fail");
        assert!(error.contains(expected), "wrong error for {tag:?}: {error}");
    }
}

#[test]
fn release_asset_selection_prefers_versioned_tarball() {
    let release = GithubRelease {
        tag_name: "v1.2.3".into(),
        assets: vec![
            asset("cued-1.2.3-macos-aarch64", "https://example.test/raw"),
            asset("cued-1.2.3-macos-aarch64.tar.gz", "https://example.test/tar"),
        ],
    };

    let asset = select_release_asset(&release, "1.2.3", "macos", "aarch64")
        .expect("versioned tarball should match");

    assert_eq!(asset.browser_download_url, "https://example.test/tar");
}

#[test]
fn release_asset_selection_rejects_unversioned_fallback_assets() {
    let release = GithubRelease {
        tag_name: "v1.2.3".into(),
        assets: vec![asset("cued-macos-aarch64.tar.gz", "https://example.test/tar")],
    };

    let message = select_release_asset(&release, "1.2.3", "macos", "aarch64")
        .expect_err("unversioned assets should not satisfy upgrade release selection");

    assert!(message.contains("no versioned asset found for macos-aarch64"));
    assert!(message.contains("cued-1.2.3-macos-aarch64.tar.gz"));
    assert!(message.contains("cued-macos-aarch64.tar.gz"));
}

#[test]
fn release_asset_download_url_accepts_https_url() {
    let asset = asset(
        "cued-1.2.3-macos-aarch64.tar.gz",
        "https://example.test/releases/cued.tar.gz",
    );

    assert_eq!(
        release_asset_download_url(&asset).expect("https URL should be accepted"),
        "https://example.test/releases/cued.tar.gz"
    );
}

#[test]
fn release_asset_download_url_rejects_unusable_urls() {
    for (url, expected) in [
        ("", "must not be empty"),
        (" https://example.test/cued", "must not contain whitespace"),
        ("https://example.test/cued\n", "must not contain whitespace"),
        ("http://example.test/cued", "must use https://"),
        ("https://", "must include a host"),
    ] {
        let asset = asset("cued-1.2.3-macos-aarch64.tar.gz", url);
        let error = release_asset_download_url(&asset).expect_err("bad download URL should fail");

        assert!(error.contains(expected), "wrong error for {url:?}: {error}");
    }
}

fn leaf(path: &str) -> DirLeaf {
    let name = path.rsplit('/').next().unwrap_or(path).to_string();
    DirLeaf { path: path.to_string(), name, is_file: true }
}

#[test]
fn find_binary_in_dir_finds_single_cued_binary_one_level_deep() {
    let items = vec![DirItem {
        path: "/tmp/unpacked/release".into(),
        name: "release".into(),
        is_file: false,
        inner: vec![leaf("/tmp/unpacked/release/cued")],
    }];

    let found =
        find_binary_in_dir("/tmp/unpacked", &items).expect("single cued binary should be selected");

    assert_eq!(found, "/tmp/unpacked/release/cued");
}

#[test]
fn find_binary_in_dir_rejects_ambiguous_cued_binaries() {
    let items = vec![
        DirItem {
            path: "/tmp/unpacked/cued".into(),
            name: "cued".into(),
            is_file: true,
            inner: Vec::new(),
        },
        DirItem {
            path: "/tmp/unpacked/release".into(),
            name: "release".into(),
            is_file: false,
            inner: vec![leaf("/tmp/unpacked/release/cued")],
        },
    ];

    let message = find_binary_in_dir("/tmp/unpacked", &items)
        .expect_err("multiple cued binaries should be ambiguous");

    assert!(message.contains("multiple `cued` binaries found after extraction"));
    assert!(message.contains("release/cued"));
}

#[test]
fn find_binary_in_dir_reports_a_missing_binary() {
    let message = find_binary_in_dir("/tmp/unpacked", &Vec::new()).expect_err("nothing to find");
    assert!(message.contains("/tmp/unpacked"), "{message}");
}

#[test]
fn upgrade_is_planned_only_for_another_version() {
    let release = GithubRelease {
        tag_name: "v1.2.3".into(),
        assets: vec![asset("cued-1.2.3-macos-aarch64.tar.gz", "https://example.test/tar")],
    };
    let current = plan_upgrade(&release, "1.2.3", "macos", "aarch64").expect("same version");
    assert!(matches!(current, UpgradePlan::UpToDate));
    match plan_upgrade(&release, "1.2.2", "macos", "aarch64").expect("newer version") {
        UpgradePlan::Download { name, url } => {
            assert_eq!(name, "cued-1.2.3-macos-aarch64.tar.gz");
            assert_eq!(url, "https://example.test/tar");
            assert!(is_archive(&name));
        }
        UpgradePlan::UpToDate => panic!("expected a download"),
    }
    assert!(plan_upgrade(&release, "1.2.2", "linux", "x86_64").is_err());
    assert!(check_platform("macos", "aarch64").is_ok());
    assert!(check_platform("unknown", "x86_64").is_err());
}
